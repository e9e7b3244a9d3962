//! Why the random choice of repeated values favours no value.
//!
//! A marking says of each known value whether it is to be repeated. Draws
//! agree with a marking when they repeat exactly what it marks. At each
//! position a marking leaves a certain number of the possible draws to
//! choose from, and these numbers multiply to the number of ways to draw
//! the marking. That product is the same for all markings of one size: so
//! with fair draws every choice of that size is equally likely.

use vstd::prelude::*;
use crate::resend::{draws_fit, resend_choice, resend_from};

verus! {

/// How many of the positions from `from` on are marked.
pub open spec fn marks_from(marked: Seq<bool>, from: int) -> nat
    decreases marked.len() - from,
{
    if from < 0 || from >= marked.len() {
        0
    } else if marked[from] {
        1 + marks_from(marked, from + 1)
    } else {
        marks_from(marked, from + 1)
    }
}

/// The values of `known` at the marked positions from `from` on.
pub open spec fn marked_values(known: Seq<usize>, marked: Seq<bool>, from: int) -> Seq<usize>
    decreases marked.len() - from,
{
    if from < 0 || from >= marked.len() || from >= known.len() {
        Seq::empty()
    } else if marked[from] {
        seq![known[from]] + marked_values(known, marked, from + 1)
    } else {
        marked_values(known, marked, from + 1)
    }
}

/// Draws agree with a marking when at every position the draw lies below
/// the number of marks from there on if the position is marked, and not
/// below it if the position is not.
pub open spec fn draws_agree(draws: Seq<usize>, marked: Seq<bool>) -> bool {
    &&& draws.len() == marked.len()
    &&& forall|i: int|
        0 <= i < marked.len() ==> (#[trigger] marked[i] <==> draws[i] < marks_from(marked, i))
}

/// How many of the draws that fit position `at` agree with the marking
/// there.
pub open spec fn agreeing_at(marked: Seq<bool>, at: int) -> nat {
    if marked[at] {
        marks_from(marked, at)
    } else {
        (marked.len() - at - marks_from(marked, at)) as nat
    }
}

/// In how many ways the positions from `from` on can be drawn in agreement
/// with the marking: the product of the numbers for each position.
pub open spec fn ways_from(marked: Seq<bool>, from: int) -> nat
    decreases marked.len() - from,
{
    if from < 0 || from >= marked.len() {
        1
    } else {
        agreeing_at(marked, from) * ways_from(marked, from + 1)
    }
}

/// The product of the numbers from 1 to `n`.
pub open spec fn factorial(n: nat) -> nat
    decreases n,
{
    if n == 0 {
        1
    } else {
        n * factorial((n - 1) as nat)
    }
}

/// No more positions are marked than there are.
pub proof fn lemma_marks_are_bounded(marked: Seq<bool>, from: int)
    requires
        0 <= from <= marked.len(),
    ensures
        marks_from(marked, from) <= marked.len() - from,
    decreases marked.len() - from,
{
    if from < marked.len() {
        lemma_marks_are_bounded(marked, from + 1);
    }
}

/// Draws that agree with a marking make the walk repeat exactly the marked
/// values, when as many values are wanted as are marked.
pub proof fn law_agreeing_draws_repeat_the_marked(
    known: Seq<usize>,
    marked: Seq<bool>,
    draws: Seq<usize>,
    from: int,
)
    requires
        marked.len() == known.len(),
        draws_agree(draws, marked),
        0 <= from <= known.len(),
    ensures
        resend_from(known, draws, from, marks_from(marked, from)) == marked_values(
            known,
            marked,
            from,
        ),
        from == 0 ==> resend_choice(known, marks_from(marked, 0), draws) == marked_values(
            known,
            marked,
            0,
        ),
    decreases known.len() - from,
{
    if from < known.len() {
        law_agreeing_draws_repeat_the_marked(known, marked, draws, from + 1);
        assert(marked[from] <==> draws[from] < marks_from(marked, from));
    }
}

/// Every marking can be drawn: there are fitting draws that agree with it.
pub proof fn law_every_marking_can_be_drawn(marked: Seq<bool>) -> (draws: Seq<usize>)
    requires
        marked.len() <= usize::MAX,
    ensures
        draws_fit(draws, marked.len()),
        draws_agree(draws, marked),
{
    let draws = Seq::new(
        marked.len(),
        |i: int|
            if marked[i] {
                0usize
            } else {
                (marked.len() - i - 1) as usize
            },
    );
    assert forall|i: int| 0 <= i < marked.len() implies (#[trigger] marked[i] <==> draws[i]
        < marks_from(marked, i)) by {
        lemma_marks_are_bounded(marked, i + 1);
    }
    draws
}

/// Every marking of one size can be drawn in the same number of ways: the
/// number of orders of the marked positions times the number of orders of
/// the others.
pub proof fn law_markings_are_drawn_alike(marked: Seq<bool>, from: int)
    requires
        0 <= from <= marked.len(),
    ensures
        marks_from(marked, from) <= marked.len() - from,
        ways_from(marked, from) == factorial(marks_from(marked, from)) * factorial(
            (marked.len() - from - marks_from(marked, from)) as nat,
        ),
    decreases marked.len() - from,
{
    lemma_marks_are_bounded(marked, from);
    if from < marked.len() {
        law_markings_are_drawn_alike(marked, from + 1);
        let marks = marks_from(marked, from);
        let others = (marked.len() - from - marks) as nat;
        if marked[from] {
            let fewer = (marks - 1) as nat;
            assert(factorial(marks) == marks * factorial(fewer));
            assert(marks * (factorial(fewer) * factorial(others)) == (marks * factorial(fewer))
                * factorial(others)) by (nonlinear_arith);
        } else {
            let fewer = (others - 1) as nat;
            assert(factorial(others) == others * factorial(fewer));
            assert(others * (factorial(marks) * factorial(fewer)) == factorial(marks) * (others
                * factorial(fewer))) by (nonlinear_arith);
        }
    } else {
        assert(factorial(0) * factorial(0) == 1) by (nonlinear_arith)
            requires
                factorial(0) == 1,
        ;
    }
}

} // verus!
