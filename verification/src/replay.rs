//! The message log and the history replayer, which teaches the chains anew
//! from the log when the bot starts.

use crate::pool::GeneratorPool;
use crate::registry::{room_at, Registry};
use crate::room::RoomView;
use vstd::prelude::*;
use vstd::string::*;

verus! {

/// One message as the log keeps it.
#[derive(Clone, Debug, PartialEq, Eq)]
pub struct PersistedMessage {
    /// The local part of the address of the room it was heard in.
    pub room_local: String,
    /// The domain of that address.
    pub room_domain: String,
    /// Who said it.
    pub sender_nick: String,
    /// What was said.
    pub body: String,
}

/// `chain` is one of `chains`.
pub open spec fn binds(chains: Seq<usize>, chain: int) -> bool {
    exists|k: int| 0 <= k < chains.len() && #[trigger] chains[k] == chain
}

/// The corpora of a pool after `text` was fed to each of `chains`.
pub open spec fn fed(
    corpora: Seq<Seq<Seq<char>>>,
    chains: Seq<usize>,
    text: Seq<char>,
) -> Seq<Seq<Seq<char>>> {
    Seq::new(
        corpora.len(),
        |i: int|
            if binds(chains, i) {
                corpora[i].push(text)
            } else {
                corpora[i]
            },
    )
}

/// The chains that a message from the room `local`, `domain` is fed to:
/// the chains of that room, or chain 0 where no such room is registered.
pub open spec fn chains_fed(rooms: Seq<RoomView>, local: Seq<char>, domain: Seq<char>) -> Seq<
    usize,
> {
    match room_at(rooms, local, domain) {
        Some(room) => room.chains,
        None => seq![0usize],
    }
}

/// What chain `chain` learns from a log, oldest first: the body of every
/// message whose room feeds the chain.
pub open spec fn learned(rooms: Seq<RoomView>, log: Seq<PersistedMessage>, chain: int) -> Seq<
    Seq<char>,
>
    decreases log.len(),
{
    if log.len() == 0 {
        Seq::<Seq<char>>::empty()
    } else {
        let before = learned(rooms, log.drop_last(), chain);
        let last = log.last();
        if binds(chains_fed(rooms, last.room_local@, last.room_domain@), chain) {
            before.push(last.body@)
        } else {
            before
        }
    }
}

/// The corpora of a pool after a log was replayed into it.
pub open spec fn replayed(
    rooms: Seq<RoomView>,
    corpora: Seq<Seq<Seq<char>>>,
    log: Seq<PersistedMessage>,
) -> Seq<Seq<Seq<char>>> {
    Seq::new(corpora.len(), |i: int| corpora[i] + learned(rooms, log, i))
}

/// Feeds `text` to each of `chains`.
pub fn feed(pool: &mut GeneratorPool, chains: &Vec<usize>, text: &str)
    requires
        old(pool).wf(),
        chains@.no_duplicates(),
        forall|k: int| 0 <= k < chains@.len() ==> (#[trigger] chains@[k]) < old(pool)@.len(),
    ensures
        final(pool).wf(),
        final(pool)@ == fed(old(pool)@, chains@, text@),
        final(pool).asked() == old(pool).asked(),
{
    let mut k: usize = 0;
    assert(pool@ =~= fed(old(pool)@, chains@.take(0), text@));
    while k < chains.len()
        invariant
            k <= chains.len(),
            pool.wf(),
            pool@.len() == old(pool)@.len(),
            chains@.no_duplicates(),
            forall|j: int| 0 <= j < chains@.len() ==> (#[trigger] chains@[j]) < old(pool)@.len(),
            pool@ == fed(old(pool)@, chains@.take(k as int), text@),
            pool.asked() == old(pool).asked(),
        decreases chains.len() - k,
    {
        let chain = chains[k];
        let ghost before = pool@;
        pool.ingest(chain, text);
        proof {
            let sofar = chains@.take(k as int);
            let next = chains@.take(k + 1);
            assert(!sofar.contains(chain)) by {
                if sofar.contains(chain) {
                    let j = choose|j: int| 0 <= j < sofar.len() && sofar[j] == chain;
                    assert(chains@[j] == chains@[k as int]);
                }
            }
            assert forall|i: int| 0 <= i < pool@.len() implies pool@[i] == fed(
                old(pool)@,
                next,
                text@,
            )[i] by {
                if i == chain {
                    assert(next[k as int] == chain);
                    assert(binds(next, i));
                    assert(!binds(sofar, i)) by {
                        if binds(sofar, i) {
                            let j = choose|j: int| 0 <= j < sofar.len() && sofar[j] == i;
                            assert(sofar.contains(chain));
                        }
                    }
                } else {
                    if binds(next, i) {
                        let j = choose|j: int| 0 <= j < next.len() && next[j] == i;
                        assert(j < k);
                        assert(sofar[j] == i);
                        assert(binds(sofar, i));
                    }
                    if binds(sofar, i) {
                        let j = choose|j: int| 0 <= j < sofar.len() && sofar[j] == i;
                        assert(next[j] == i);
                        assert(binds(next, i));
                    }
                }
            }
            assert(pool@ =~= fed(old(pool)@, next, text@));
        }
        k += 1;
    }
    assert(chains@.take(chains.len() as int) == chains@);
}

/// Replays one message of the log: feeds its body to every chain of the
/// room it was heard in, or to chain 0 where that room is not registered,
/// so that nothing that was logged is lost.
pub fn replay_one(registry: &Registry, pool: &mut GeneratorPool, message: &PersistedMessage)
    requires
        registry.wf(),
        old(pool).wf(),
        registry.size() <= old(pool)@.len(),
    ensures
        final(pool).wf(),
        final(pool)@ == fed(
            old(pool)@,
            chains_fed(registry@, message.room_local@, message.room_domain@),
            message.body@,
        ),
        final(pool).asked() == old(pool).asked(),
{
    match registry.lookup(message.room_local.as_str(), message.room_domain.as_str()) {
        Some(room) => {
            proof {
                crate::registry::lemma_position(
                    registry@,
                    message.room_local@,
                    message.room_domain@,
                );
            }
            feed(pool, room.chain_indices(), message.body.as_str());
        },
        None => {
            pool.ingest(0, message.body.as_str());
            proof {
                let chains = seq![0usize];
                assert(chains[0] == 0);
                assert forall|i: int| 0 <= i < pool@.len() implies pool@[i] == fed(
                    old(pool)@,
                    chains,
                    message.body@,
                )[i] by {
                    if binds(chains, i) {
                        let j = choose|j: int| 0 <= j < chains.len() && chains[j] == i;
                    }
                }
                assert(pool@ =~= fed(old(pool)@, chains, message.body@));
            }
        },
    }
}

/// One more message replayed, seen chain by chain.
pub proof fn lemma_replayed_step(
    rooms: Seq<RoomView>,
    corpora: Seq<Seq<Seq<char>>>,
    log: Seq<PersistedMessage>,
)
    requires
        log.len() > 0,
    ensures
        replayed(rooms, corpora, log) == fed(
            replayed(rooms, corpora, log.drop_last()),
            chains_fed(rooms, log.last().room_local@, log.last().room_domain@),
            log.last().body@,
        ),
{
    let before = replayed(rooms, corpora, log.drop_last());
    let chains = chains_fed(rooms, log.last().room_local@, log.last().room_domain@);
    let after = fed(before, chains, log.last().body@);
    assert forall|i: int| 0 <= i < corpora.len() implies replayed(rooms, corpora, log)[i]
        == after[i] by {
        if binds(chains, i) {
            assert(corpora[i] + learned(rooms, log.drop_last(), i).push(log.last().body@)
                =~= (corpora[i] + learned(rooms, log.drop_last(), i)).push(log.last().body@));
        }
    }
    assert(replayed(rooms, corpora, log) =~= after);
}

/// Replays a log, oldest message first.
pub fn replay(registry: &Registry, pool: &mut GeneratorPool, log: &Vec<PersistedMessage>)
    requires
        registry.wf(),
        old(pool).wf(),
        registry.size() <= old(pool)@.len(),
    ensures
        final(pool).wf(),
        final(pool)@ == replayed(registry@, old(pool)@, log@),
        final(pool).asked() == old(pool).asked(),
{
    let mut k: usize = 0;
    proof {
        assert forall|i: int| 0 <= i < pool@.len() implies pool@[i] == (pool@[i] + learned(
            registry@,
            log@.take(0),
            i,
        )) by {
            assert(pool@[i] + Seq::<Seq<char>>::empty() =~= pool@[i]);
        }
        assert(pool@ =~= replayed(registry@, old(pool)@, log@.take(0)));
    }
    while k < log.len()
        invariant
            k <= log.len(),
            registry.wf(),
            pool.wf(),
            registry.size() <= pool@.len(),
            pool@.len() == old(pool)@.len(),
            pool@ == replayed(registry@, old(pool)@, log@.take(k as int)),
            pool.asked() == old(pool).asked(),
        decreases log.len() - k,
    {
        replay_one(registry, pool, &log[k]);
        proof {
            let next = log@.take(k + 1);
            assert(next.drop_last() == log@.take(k as int));
            assert(next.last() == log@[k as int]);
            lemma_replayed_step(registry@, old(pool)@, next);
        }
        k += 1;
    }
    assert(log@.take(log.len() as int) == log@);
}

} // verus!
