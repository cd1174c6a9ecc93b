//! The list of chains that a room is bound to: what it feeds, and, first in
//! the list, what it speaks from.

use vstd::prelude::*;

verus! {

/// `list` with each number kept where it first occurs and dropped where it
/// occurs again.
pub open spec fn distinct(list: Seq<usize>) -> Seq<usize>
    decreases list.len(),
{
    if list.len() == 0 {
        Seq::<usize>::empty()
    } else {
        let before = distinct(list.drop_last());
        if before.contains(list.last()) {
            before
        } else {
            before.push(list.last())
        }
    }
}

/// The chains that a room is bound to, given what its configuration lists:
/// the listed chains, each once, in the order listed; chain 0 alone where
/// nothing is listed; and chain 0 added at the end where it is not among
/// them.
pub open spec fn effective_chains(configured: Option<Seq<usize>>) -> Seq<usize> {
    let listed = match configured {
        Some(list) => list,
        None => seq![0usize],
    };
    let kept = distinct(listed);
    if kept.contains(0) {
        kept
    } else {
        kept.push(0)
    }
}

/// A list that a room can be bound to: chain 0 is in it, and nothing is in
/// it twice.
pub open spec fn chains_ok(chains: Seq<usize>) -> bool {
    chains.contains(0) && chains.no_duplicates()
}

/// The highest number in `list`; zero for the empty list.
pub open spec fn highest(list: Seq<usize>) -> nat
    decreases list.len(),
{
    if list.len() == 0 {
        0
    } else if list.last() >= highest(list.drop_last()) {
        list.last() as nat
    } else {
        highest(list.drop_last())
    }
}

/// The configured list as a sequence.
pub open spec fn listed(configured: Option<Vec<usize>>) -> Option<Seq<usize>> {
    match configured {
        Some(list) => Some(list@),
        None => None,
    }
}

/// `distinct` keeps exactly the numbers of the list, each once, and the
/// first of them first.
pub proof fn lemma_distinct(list: Seq<usize>)
    ensures
        distinct(list).no_duplicates(),
        forall|x: usize| distinct(list).contains(x) <==> list.contains(x),
        distinct(list).len() <= list.len(),
        list.len() > 0 ==> distinct(list).len() > 0 && distinct(list)[0] == list[0],
    decreases list.len(),
{
    if list.len() > 0 {
        let front = list.drop_last();
        let before = distinct(front);
        lemma_distinct(front);
        assert forall|x: usize| distinct(list).contains(x) <==> list.contains(x) by {
            if list.contains(x) {
                let i = choose|i: int| 0 <= i < list.len() && list[i] == x;
                if i < list.len() - 1 {
                    assert(front[i] == x);
                    assert(front.contains(x));
                    assert(before.contains(x));
                    let j = choose|j: int| 0 <= j < before.len() && before[j] == x;
                    assert(distinct(list)[j] == x);
                } else {
                    if before.contains(x) {
                    } else {
                        assert(distinct(list)[before.len() as int] == x);
                    }
                }
            }
            if distinct(list).contains(x) {
                let j = choose|j: int| 0 <= j < distinct(list).len() && distinct(list)[j] == x;
                if j < before.len() {
                    assert(before[j] == x);
                    assert(before.contains(x));
                    assert(front.contains(x));
                    let i = choose|i: int| 0 <= i < front.len() && front[i] == x;
                    assert(list[i] == x);
                } else {
                    assert(list[list.len() - 1] == x);
                }
            }
        }
        if front.len() == 0 {
            assert(before.len() == 0);
            assert(distinct(list) == before.push(list.last()));
        }
    }
}

/// The chains that a room is bound to are a list it can be bound to, hold
/// just chain 0 and what was listed, and begin with what was listed first.
pub proof fn lemma_effective_chains(configured: Option<Seq<usize>>)
    ensures
        chains_ok(effective_chains(configured)),
        effective_chains(configured).len() > 0,
        forall|x: usize|
            effective_chains(configured).contains(x) <==> (x == 0 || (configured is Some
                && configured->0.contains(x))),
        configured is Some && configured->0.len() > 0 ==> effective_chains(configured)[0]
            == configured->0[0],
        !(configured is Some && configured->0.len() > 0) ==> effective_chains(configured)[0] == 0,
{
    let list = match configured {
        Some(list) => list,
        None => seq![0usize],
    };
    let kept = distinct(list);
    let all = effective_chains(configured);
    lemma_distinct(list);
    if kept.contains(0) {
        let j = choose|j: int| 0 <= j < kept.len() && kept[j] == 0;
        assert(all[j] == 0);
    } else {
        assert(all[kept.len() as int] == 0);
    }
    assert forall|x: usize|
        all.contains(x) <==> (x == 0 || (configured is Some && configured->0.contains(x))) by {
        if all.contains(x) {
            let j = choose|j: int| 0 <= j < all.len() && all[j] == x;
            if j < kept.len() {
                assert(kept[j] == x);
                assert(kept.contains(x));
                assert(list.contains(x));
                if configured is None {
                    let i = choose|i: int| 0 <= i < list.len() && list[i] == x;
                    assert(x == 0);
                }
            }
        }
        if x != 0 && configured is Some && configured->0.contains(x) {
            assert(kept.contains(x));
            let j = choose|j: int| 0 <= j < kept.len() && kept[j] == x;
            assert(all[j] == x);
        }
    }
    if configured is None {
        assert(list[0] == 0);
    }
}

/// `highest` is at least every number of the list, and is one of them
/// unless the list is empty.
pub proof fn lemma_highest(list: Seq<usize>)
    ensures
        forall|i: int| 0 <= i < list.len() ==> list[i] <= highest(list),
        list.len() > 0 ==> list.contains(highest(list) as usize),
        highest(list) <= usize::MAX,
    decreases list.len(),
{
    if list.len() > 0 {
        let front = list.drop_last();
        lemma_highest(front);
        if list.last() >= highest(front) {
            assert(list[list.len() - 1] == highest(list));
        } else {
            let i = choose|i: int| 0 <= i < front.len() && front[i] == highest(front) as usize;
            assert(list[i] == highest(list) as usize);
        }
        assert forall|i: int| 0 <= i < list.len() implies list[i] <= highest(list) by {
            if i < list.len() - 1 {
                assert(front[i] == list[i]);
            }
        }
    }
}

/// Whether `x` is in `list`.
pub fn holds(list: &Vec<usize>, x: usize) -> (found: bool)
    ensures
        found == list@.contains(x),
{
    let mut i: usize = 0;
    while i < list.len()
        invariant
            i <= list.len(),
            forall|k: int| 0 <= k < i ==> list@[k] != x,
        decreases list.len() - i,
    {
        if list[i] == x {
            return true;
        }
        i += 1;
    }
    false
}

/// The highest number in `list`; zero for the empty list.
pub fn highest_of(list: &Vec<usize>) -> (top: usize)
    ensures
        top == highest(list@),
{
    let mut top: usize = 0;
    let mut i: usize = 0;
    while i < list.len()
        invariant
            i <= list.len(),
            top == highest(list@.take(i as int)),
        decreases list.len() - i,
    {
        assert(list@.take(i + 1).drop_last() == list@.take(i as int));
        if list[i] >= top {
            top = list[i];
        }
        i += 1;
    }
    assert(list@.take(list.len() as int) == list@);
    top
}

/// Works out the chains that a room is bound to from what its
/// configuration lists.
pub fn normalize_chains(configured: &Option<Vec<usize>>) -> (chains: Vec<usize>)
    ensures
        chains@ == effective_chains(listed(*configured)),
        chains_ok(chains@),
        chains@.len() > 0,
{
    proof {
        lemma_effective_chains(listed(*configured));
    }
    let mut only: Vec<usize> = Vec::new();
    only.push(0);
    assert(only@ == seq![0usize]);
    let list: &Vec<usize> = match configured {
        Some(list) => list,
        None => &only,
    };
    let mut chains: Vec<usize> = Vec::new();
    let mut i: usize = 0;
    while i < list.len()
        invariant
            i <= list.len(),
            chains@ == distinct(list@.take(i as int)),
        decreases list.len() - i,
    {
        assert(list@.take(i + 1).drop_last() == list@.take(i as int));
        if !holds(&chains, list[i]) {
            chains.push(list[i]);
        }
        i += 1;
    }
    assert(list@.take(list.len() as int) == list@);
    if !holds(&chains, 0) {
        chains.push(0);
    }
    chains
}

} // verus!
