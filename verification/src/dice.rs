//! The one source of chance. Every random decision of the engine is a roll
//! of a `Dice`; a `Dice` made from a script hands out the script first, so
//! that a run can be replayed roll by roll.

use rand::Rng;
use vstd::prelude::*;

verus! {

/// Draws a number below `bound` with `rand::Rng::gen_range` on the generator
/// of the current thread. Trusted: the number lies in `0..bound`; which one
/// it is differs from call to call. `gen_range` panics on an empty range,
/// hence the `requires`.
#[verifier::external_body]
fn random_below(bound: u64) -> (r: u64)
    requires
        bound > 0,
    ensures
        r < bound,
{
    rand::thread_rng().gen_range(0..bound)
}

/// A source of rolls. It remembers, for the proofs only, every roll it has
/// handed out and the bound that each was asked for.
pub struct Dice {
    script: Vec<u64>,
    next: usize,
    rolled: Ghost<Seq<u64>>,
    asked: Ghost<Seq<u64>>,
}

impl Dice {
    #[verifier::type_invariant]
    spec fn well_formed(self) -> bool {
        self.next <= self.script.len()
    }

    /// What is left of the script: the numbers that the next rolls are
    /// taken from, first first.
    pub closed spec fn pending(self) -> Seq<u64> {
        self.script@.skip(self.next as int)
    }

    /// Every roll handed out so far, oldest first.
    pub closed spec fn history(self) -> Seq<u64> {
        self.rolled@
    }

    /// The bound of every roll handed out so far, oldest first.
    pub closed spec fn bounds(self) -> Seq<u64> {
        self.asked@
    }

    /// The rolls handed out after the state `before`.
    pub open spec fn since(self, before: Dice) -> Seq<u64> {
        self.history().skip(before.history().len() as int)
    }

    /// The bounds of the rolls handed out after the state `before`.
    pub open spec fn bounds_since(self, before: Dice) -> Seq<u64> {
        self.bounds().skip(before.bounds().len() as int)
    }

    /// `self` is what `before` became by rolling. The history has grown by
    /// the rolls made since; each of them lies below its bound; each took
    /// one number off the script while there was one, and is then that
    /// number reduced below the bound.
    pub open spec fn follows(self, before: Dice) -> bool {
        &&& self.history() == before.history() + self.since(before)
        &&& self.bounds() == before.bounds() + self.bounds_since(before)
        &&& self.since(before).len() == self.bounds_since(before).len()
        &&& self.pending() == if self.since(before).len() <= before.pending().len() {
            before.pending().skip(self.since(before).len() as int)
        } else {
            Seq::<u64>::empty()
        }
        &&& forall|i: int|
            0 <= i < self.since(before).len() ==> (#[trigger] self.since(before)[i])
                < self.bounds_since(before)[i]
        &&& forall|i: int|
            0 <= i < self.since(before).len() && i < before.pending().len()
                ==> (#[trigger] self.since(before)[i]) == before.pending()[i]
                % self.bounds_since(before)[i]
    }

    /// Dice that roll by chance.
    pub fn live() -> (dice: Dice)
        ensures
            dice.pending() == Seq::<u64>::empty(),
            dice.history() == Seq::<u64>::empty(),
            dice.bounds() == Seq::<u64>::empty(),
    {
        Dice { script: Vec::new(), next: 0, rolled: Ghost(Seq::empty()), asked: Ghost(Seq::empty()) }
    }

    /// Dice that hand out `script`, number by number, each reduced below the
    /// bound of its roll, and roll by chance once the script is used up.
    pub fn scripted(script: Vec<u64>) -> (dice: Dice)
        ensures
            dice.pending() == script@,
            dice.history() == Seq::<u64>::empty(),
            dice.bounds() == Seq::<u64>::empty(),
    {
        Dice { script, next: 0, rolled: Ghost(Seq::empty()), asked: Ghost(Seq::empty()) }
    }

    /// How many numbers of the script are left.
    pub fn remaining(&self) -> (n: usize)
        ensures
            n == self.pending().len(),
    {
        proof {
            use_type_invariant(self);
        }
        self.script.len() - self.next
    }

    /// One roll: a number below `bound`.
    pub fn roll(&mut self, bound: u64) -> (r: u64)
        requires
            bound > 0,
        ensures
            r < bound,
            final(self).follows(*old(self)),
            final(self).since(*old(self)) == seq![r],
            final(self).bounds_since(*old(self)) == seq![bound],
            old(self).pending().len() > 0 ==> r == old(self).pending()[0] % bound,
    {
        proof {
            use_type_invariant(&*self);
        }
        let r = if self.next < self.script.len() {
            let scripted = self.script[self.next];
            self.next = self.next + 1;
            scripted % bound
        } else {
            random_below(bound)
        };
        self.rolled = Ghost(self.rolled@.push(r));
        self.asked = Ghost(self.asked@.push(bound));
        proof {
            assert(self.since(*old(self)) =~= seq![r]);
            assert(self.bounds_since(*old(self)) =~= seq![bound]);
            assert(self.history() =~= old(self).history() + seq![r]);
            assert(self.bounds() =~= old(self).bounds() + seq![bound]);
            assert(old(self).pending().len() > 0 ==> self.pending() =~= old(self).pending().skip(1));
            assert(old(self).pending().len() == 0 ==> self.pending() =~= Seq::<u64>::empty());
        }
        r
    }
}

/// Dice that have not been rolled follow themselves, with no roll between.
pub proof fn lemma_no_rolls(dice: Dice)
    ensures
        dice.follows(dice),
        dice.since(dice) == Seq::<u64>::empty(),
        dice.bounds_since(dice) == Seq::<u64>::empty(),
{
    assert(dice.since(dice) =~= Seq::<u64>::empty());
    assert(dice.bounds_since(dice) =~= Seq::<u64>::empty());
    assert(dice.history() =~= dice.history() + dice.since(dice));
    assert(dice.bounds() =~= dice.bounds() + dice.bounds_since(dice));
    assert(dice.pending().skip(0) =~= dice.pending());
}

/// Rolling on from where an earlier run of rolls ended appends to it.
pub proof fn lemma_rolls_chain(first: Dice, second: Dice, third: Dice)
    requires
        second.follows(first),
        third.follows(second),
    ensures
        third.follows(first),
        third.since(first) == second.since(first) + third.since(second),
        third.bounds_since(first) == second.bounds_since(first) + third.bounds_since(second),
{
    let ab = second.since(first);
    let bc = third.since(second);
    let bab = second.bounds_since(first);
    let bbc = third.bounds_since(second);
    assert(third.history() =~= first.history() + (ab + bc));
    assert(third.since(first) =~= ab + bc);
    assert(third.bounds() =~= first.bounds() + (bab + bbc));
    assert(third.bounds_since(first) =~= bab + bbc);
    if ab.len() + bc.len() <= first.pending().len() {
        assert(third.pending() =~= first.pending().skip((ab + bc).len() as int));
    } else {
        assert(third.pending() =~= Seq::<u64>::empty());
    }
    assert forall|i: int| 0 <= i < third.since(first).len() implies (#[trigger] third.since(
        first,
    )[i]) < third.bounds_since(first)[i] by {
        if i < ab.len() {
            assert(ab[i] < bab[i]);
        } else {
            assert(bc[i - ab.len()] < bbc[i - ab.len()]);
        }
    }
    assert forall|i: int|
        0 <= i < third.since(first).len() && i < first.pending().len() implies (
    #[trigger] third.since(first)[i]) == first.pending()[i] % third.bounds_since(first)[i] by {
        if i < ab.len() {
            assert(ab[i] == first.pending()[i] % bab[i]);
        } else {
            let k = i - ab.len();
            assert(second.pending() == first.pending().skip(ab.len() as int));
            assert(bc[k] == second.pending()[k] % bbc[k]);
        }
    }
}

} // verus!
