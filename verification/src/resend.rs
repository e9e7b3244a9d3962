//! Which already-known values a gossip message repeats.
//!
//! The values that a peer is believed to know are walked once. The value at
//! position `i` of `count` is repeated when a number drawn below `count - i`
//! is below the number of values still wanted. Whatever is drawn, exactly the
//! wanted number of values is repeated; with fair draws every subset of that
//! size is equally likely.

use vstd::prelude::*;
use crate::random::random_below;

verus! {

/// How many already-known values may be repeated beside `unknown` new ones,
/// at a redundancy of `percent` in a hundred.
pub open spec fn resend_cap(unknown: nat, percent: nat) -> nat {
    unknown * percent / 100
}

/// How many already-known values are repeated: the cap, or all `known` of
/// them where there are fewer.
pub open spec fn resend_amount(unknown: nat, known: nat, percent: nat) -> nat {
    if resend_cap(unknown, percent) <= known {
        resend_cap(unknown, percent)
    } else {
        known
    }
}

/// Draws fit a walk over `count` values when there is one for each position
/// and the draw for position `i` lies below `count - i`.
pub open spec fn draws_fit(draws: Seq<usize>, count: nat) -> bool {
    &&& draws.len() == count
    &&& forall|i: int| 0 <= i < count ==> (#[trigger] draws[i]) < count - i
}

/// The values repeated from position `from` on, when `amount` are still
/// wanted.
pub open spec fn resend_from(known: Seq<usize>, draws: Seq<usize>, from: int, amount: nat) -> Seq<
    usize,
>
    decreases known.len() - from,
{
    if from < 0 || from >= known.len() || from >= draws.len() {
        Seq::empty()
    } else if draws[from] < amount {
        seq![known[from]] + resend_from(known, draws, from + 1, (amount - 1) as nat)
    } else {
        resend_from(known, draws, from + 1, amount)
    }
}

/// The values of `known` that are repeated when `amount` are wanted and the
/// draws are `draws`.
pub open spec fn resend_choice(known: Seq<usize>, amount: nat, draws: Seq<usize>) -> Seq<usize> {
    resend_from(known, draws, 0, amount)
}

/// What is repeated from a position on is taken from the values at or after
/// it, in their order and each once, and is never more than wanted. With
/// fitting draws it is exactly as many as wanted.
pub proof fn lemma_resend_from(known: Seq<usize>, draws: Seq<usize>, from: int, amount: nat)
    requires
        0 <= from <= known.len(),
    ensures
        resend_from(known, draws, from, amount).len() <= amount,
        resend_from(known, draws, from, amount).len() <= known.len() - from,
        forall|v: usize|
            resend_from(known, draws, from, amount).contains(v) ==> known.skip(from).contains(v),
        known.no_duplicates() ==> resend_from(known, draws, from, amount).no_duplicates(),
        draws_fit(draws, known.len()) && amount <= known.len() - from ==> resend_from(
            known,
            draws,
            from,
            amount,
        ).len() == amount,
    decreases known.len() - from,
{
    let chosen = resend_from(known, draws, from, amount);
    let here = known.skip(from);
    let after = known.skip(from + 1);
    if from >= known.len() || from >= draws.len() {
    } else if draws[from] < amount {
        let rest = resend_from(known, draws, from + 1, (amount - 1) as nat);
        lemma_resend_from(known, draws, from + 1, (amount - 1) as nat);
        assert(chosen == seq![known[from]] + rest);
        assert forall|v: usize| chosen.contains(v) implies here.contains(v) by {
            let k = choose|k: int| 0 <= k < chosen.len() && chosen[k] == v;
            if k == 0 {
                assert(here[0] == v);
            } else {
                assert(rest[k - 1] == v);
                assert(rest.contains(v));
                let j = choose|j: int| 0 <= j < after.len() && after[j] == v;
                assert(here[j + 1] == v);
            }
        }
        if known.no_duplicates() {
            assert forall|a: int, b: int| 0 <= a < chosen.len() && 0 <= b < chosen.len() && a != b
                implies chosen[a] != chosen[b] by {
                if a == 0 || b == 0 {
                    let other = if a == 0 { b } else { a };
                    assert(rest[other - 1] == chosen[other]);
                    assert(rest.contains(chosen[other]));
                    let j = choose|j: int| 0 <= j < after.len() && after[j] == chosen[other];
                    assert(known[from + 1 + j] == chosen[other]);
                } else {
                    assert(rest[a - 1] == chosen[a]);
                    assert(rest[b - 1] == chosen[b]);
                }
            }
        }
    } else {
        lemma_resend_from(known, draws, from + 1, amount);
        assert forall|v: usize| chosen.contains(v) implies here.contains(v) by {
            let j = choose|j: int| 0 <= j < after.len() && after[j] == v;
            assert(here[j + 1] == v);
        }
    }
}

/// What [`resend_choice`] repeats is taken from `known`, each value once
/// where `known` holds each once, and is never more than wanted. With
/// fitting draws it is exactly as many as wanted.
pub proof fn lemma_resend_choice(known: Seq<usize>, amount: nat, draws: Seq<usize>)
    ensures
        resend_choice(known, amount, draws).len() <= amount,
        resend_choice(known, amount, draws).len() <= known.len(),
        resend_choice(known, amount, draws).to_set().subset_of(known.to_set()),
        known.no_duplicates() ==> resend_choice(known, amount, draws).no_duplicates(),
        draws_fit(draws, known.len()) && amount <= known.len() ==> resend_choice(
            known,
            amount,
            draws,
        ).len() == amount,
{
    lemma_resend_from(known, draws, 0, amount);
    assert(known.skip(0) == known);
}

/// The cap on repeated values, computed without overflow.
pub fn resend_limit(unknown: usize, known: usize, percent: usize) -> (amount: usize)
    ensures
        amount == resend_amount(unknown as nat, known as nat, percent as nat),
{
    assert(unknown * percent <= 0xFFFF_FFFF_FFFF_FFFF * 0xFFFF_FFFF_FFFF_FFFF) by (nonlinear_arith)
        requires
            unknown <= 0xFFFF_FFFF_FFFF_FFFF,
            percent <= 0xFFFF_FFFF_FFFF_FFFF,
    ;
    let cap: u128 = (unknown as u128) * (percent as u128) / 100;
    if cap <= known as u128 {
        cap as usize
    } else {
        known
    }
}

/// One number for each position of a walk over `count` values, each drawn
/// below the number of values from that position on.
pub fn draw_for(count: usize) -> (draws: Vec<usize>)
    ensures
        draws_fit(draws@, count as nat),
{
    let mut draws: Vec<usize> = Vec::new();
    let mut i: usize = 0;
    while i < count
        invariant
            i <= count,
            draws@.len() == i,
            forall|k: int| 0 <= k < i ==> (#[trigger] draws@[k]) < count - k,
        decreases count - i,
    {
        let draw: usize = random_below(count - i);
        draws.push(draw);
        i = i + 1;
    }
    draws
}

/// Picks from `known` the values that a gossip message repeats, `amount` of
/// them being wanted, by the draws given.
pub fn select_resend(known: &Vec<usize>, amount: usize, draws: &Vec<usize>) -> (chosen: Vec<usize>)
    ensures
        chosen@ == resend_choice(known@, amount as nat, draws@),
{
    let mut chosen: Vec<usize> = Vec::new();
    let mut needed: usize = amount;
    let mut i: usize = 0;
    while i < known.len() && i < draws.len()
        invariant
            i <= known.len(),
            needed <= amount,
            chosen@ + resend_from(known@, draws@, i as int, needed as nat) == resend_choice(
                known@,
                amount as nat,
                draws@,
            ),
        decreases known.len() - i,
    {
        let ghost before = chosen@;
        if draws[i] < needed {
            chosen.push(known[i]);
            assert(chosen@ + resend_from(known@, draws@, i + 1, (needed - 1) as nat) == before
                + resend_from(known@, draws@, i as int, needed as nat));
            needed = needed - 1;
        }
        i = i + 1;
    }
    assert(resend_from(known@, draws@, i as int, needed as nat) == Seq::<usize>::empty());
    assert(chosen@ + Seq::<usize>::empty() == chosen@);
    chosen
}

} // verus!
