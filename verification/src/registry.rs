//! The room registry: the rooms the bot has joined, found by address, and
//! the size of the pool that their chains need.

use crate::chains::{
    chains_ok, effective_chains, highest, highest_of, lemma_highest, listed, normalize_chains,
};
use crate::clock::Moment;
use crate::config::{
    account_local, configured_room, parsed_bare_jid, read_address, resolve_nick, room_problem,
    Config, ConfigError,
};
use crate::dice::Dice;
use crate::policy::{response, seed_of};
use crate::pool::GeneratorPool;
use crate::reply::outcome_fits;
use crate::room::{Room, RoomView};
use crate::text::same_text;
use crate::trigger::{text_of, texts};
use vstd::prelude::*;
use vstd::string::*;

verus! {

/// The rooms as the contracts see them.
pub open spec fn views(rooms: Seq<Room>) -> Seq<RoomView> {
    Seq::new(rooms.len(), |i: int| rooms[i]@)
}

/// `room` has the address `local`, `domain`.
pub open spec fn is_at(room: RoomView, local: Seq<char>, domain: Seq<char>) -> bool {
    room.local == local && room.domain == domain
}

/// The place in `rooms` of the first room with the address `local`,
/// `domain`.
pub open spec fn position(rooms: Seq<RoomView>, local: Seq<char>, domain: Seq<char>) -> Option<
    int,
>
    decreases rooms.len(),
{
    if rooms.len() == 0 {
        None
    } else {
        match position(rooms.drop_last(), local, domain) {
            Some(place) => Some(place),
            None => if is_at(rooms.last(), local, domain) {
                Some(rooms.len() - 1)
            } else {
                None
            },
        }
    }
}

/// The room in `rooms` with the address `local`, `domain`.
pub open spec fn room_at(rooms: Seq<RoomView>, local: Seq<char>, domain: Seq<char>) -> Option<
    RoomView,
> {
    match position(rooms, local, domain) {
        Some(place) => Some(rooms[place]),
        None => None,
    }
}

/// No two rooms share an address.
pub open spec fn addresses_distinct(rooms: Seq<RoomView>) -> bool {
    forall|i: int, j: int|
        0 <= i < j < rooms.len() ==> !is_at(#[trigger] rooms[i], (#[trigger] rooms[j]).local, rooms[j].domain)
}

/// Every room is bound to chain 0, to no chain twice, and only to chains
/// of a pool of `size` chains.
pub open spec fn rooms_fit(rooms: Seq<RoomView>, size: nat) -> bool {
    forall|i: int|
        0 <= i < rooms.len() ==> chains_ok((#[trigger] rooms[i]).chains) && forall|k: int|
            0 <= k < rooms[i].chains.len() ==> (#[trigger] rooms[i].chains[k]) < size
}

/// `rooms` with `room` put in: in place of the room with the same address
/// where there is one, at the end where there is none.
pub open spec fn upsert(rooms: Seq<RoomView>, room: RoomView) -> Seq<RoomView> {
    match position(rooms, room.local, room.domain) {
        Some(place) => rooms.update(place, room),
        None => rooms.push(room),
    }
}

/// The rooms registered from the first `count` rooms of the configuration.
/// A room configured again under the same address takes the place of the
/// earlier one.
pub open spec fn registered(config: Config, count: nat) -> Seq<RoomView>
    decreases count,
{
    if count == 0 {
        Seq::<RoomView>::empty()
    } else {
        upsert(registered(config, (count - 1) as nat), configured_room(config, count - 1))
    }
}

/// What is wrong with the first of the first `count` configured rooms that
/// cannot be used.
pub open spec fn first_problem(config: Config, count: nat) -> Option<ConfigError>
    decreases count,
{
    if count == 0 {
        None
    } else {
        match first_problem(config, (count - 1) as nat) {
            Some(problem) => Some(problem),
            None => room_problem(config.rooms@[count - 1], count - 1),
        }
    }
}

/// The highest chain that any of the first `count` configured rooms is
/// bound to.
pub open spec fn highest_configured(config: Config, count: nat) -> nat
    decreases count,
{
    if count == 0 {
        0
    } else {
        let before = highest_configured(config, (count - 1) as nat);
        let here = highest(effective_chains(listed(config.rooms@[count - 1].chain_indices)));
        if here > before {
            here
        } else {
            before
        }
    }
}

/// What a configuration comes to: the rooms to register and the size of
/// the pool, one more than the highest chain of any configured room; or the
/// first thing that is wrong with it.
pub open spec fn expected(config: Config) -> Result<(Seq<RoomView>, nat), ConfigError> {
    let count = config.rooms@.len();
    if count == 0 {
        Err(ConfigError::NoRooms)
    } else if parsed_bare_jid(config.jid@) is None {
        Err(ConfigError::AccountUnparsable)
    } else {
        match first_problem(config, count) {
            Some(problem) => Err(problem),
            None => if highest_configured(config, count) >= usize::MAX {
                Err(ConfigError::TooManyChains)
            } else {
                Ok((registered(config, count), highest_configured(config, count) + 1))
            },
        }
    }
}

/// `position` finds the first room with the address, and finds none only
/// where there is none.
pub proof fn lemma_position(rooms: Seq<RoomView>, local: Seq<char>, domain: Seq<char>)
    ensures
        match position(rooms, local, domain) {
            Some(place) => 0 <= place < rooms.len() && is_at(rooms[place], local, domain)
                && forall|j: int| 0 <= j < place ==> !is_at(#[trigger] rooms[j], local, domain),
            None => forall|j: int| 0 <= j < rooms.len() ==> !is_at(#[trigger] rooms[j], local, domain),
        },
    decreases rooms.len(),
{
    if rooms.len() > 0 {
        let front = rooms.drop_last();
        lemma_position(front, local, domain);
        match position(front, local, domain) {
            Some(place) => {
                assert(front[place] == rooms[place]);
                assert forall|j: int| 0 <= j < place implies !is_at(
                    #[trigger] rooms[j],
                    local,
                    domain,
                ) by {
                    assert(front[j] == rooms[j]);
                }
            },
            None => {
                assert forall|j: int| 0 <= j < rooms.len() - 1 implies !is_at(
                    #[trigger] rooms[j],
                    local,
                    domain,
                ) by {
                    assert(front[j] == rooms[j]);
                }
            },
        }
    }
}

/// Putting a room in keeps the addresses distinct, and keeps the rooms
/// within the pool where the new room is within it.
pub proof fn lemma_upsert(rooms: Seq<RoomView>, room: RoomView, size: nat)
    requires
        addresses_distinct(rooms),
    ensures
        addresses_distinct(upsert(rooms, room)),
        rooms_fit(rooms, size) && rooms_fit(seq![room], size) ==> rooms_fit(upsert(rooms, room), size),
        room_at(upsert(rooms, room), room.local, room.domain) == Some(room),
{
    lemma_position(rooms, room.local, room.domain);
    let after = upsert(rooms, room);
    lemma_position(after, room.local, room.domain);
    match position(rooms, room.local, room.domain) {
        Some(place) => {
            assert(after[place] == room);
            assert forall|i: int, j: int| 0 <= i < j < after.len() implies !is_at(
                #[trigger] after[i],
                (#[trigger] after[j]).local,
                after[j].domain,
            ) by {
                if i == place {
                    assert(is_at(rooms[i], room.local, room.domain));
                    assert(!is_at(rooms[i], rooms[j].local, rooms[j].domain));
                } else if j == place {
                    assert(is_at(rooms[j], room.local, room.domain));
                    assert(!is_at(rooms[i], rooms[j].local, rooms[j].domain));
                } else {
                    assert(!is_at(rooms[i], rooms[j].local, rooms[j].domain));
                }
            }
        },
        None => {
            assert(after[rooms.len() as int] == room);
            assert forall|i: int, j: int| 0 <= i < j < after.len() implies !is_at(
                #[trigger] after[i],
                (#[trigger] after[j]).local,
                after[j].domain,
            ) by {
                if j == rooms.len() {
                    assert(!is_at(rooms[i], room.local, room.domain));
                } else {
                    assert(!is_at(rooms[i], rooms[j].local, rooms[j].domain));
                }
            }
        },
    }
    if rooms_fit(rooms, size) && rooms_fit(seq![room], size) {
        assert(seq![room][0] == room);
        assert forall|i: int| 0 <= i < after.len() implies chains_ok(
            (#[trigger] after[i]).chains,
        ) && forall|k: int|
            0 <= k < after[i].chains.len() ==> (#[trigger] after[i].chains[k]) < size by {
            if after[i] == room {
            } else {
                assert(after[i] == rooms[i]);
            }
        }
    }
}

/// The registry.
pub struct Registry {
    rooms: Vec<Room>,
    pool_size: usize,
}

impl View for Registry {
    type V = Seq<RoomView>;

    /// The rooms, in the order in which their addresses were first
    /// configured.
    closed spec fn view(&self) -> Seq<RoomView> {
        views(self.rooms@)
    }
}

impl Registry {
    /// The number of chains that the rooms need.
    pub closed spec fn size(&self) -> nat {
        self.pool_size as nat
    }

    /// No two rooms share an address, and every room is bound to chain 0,
    /// to no chain twice, and only to chains below `size`.
    pub open spec fn wf(&self) -> bool {
        &&& self.size() >= 1
        &&& addresses_distinct(self@)
        &&& rooms_fit(self@, self.size())
    }

    /// Builds the registry that a configuration asks for, or says what is
    /// wrong with the configuration.
    pub fn from_config(config: &Config) -> (result: Result<Registry, ConfigError>)
        ensures
            match result {
                Ok(registry) => registry.wf() && expected(*config) == Ok::<
                    (Seq<RoomView>, nat),
                    ConfigError,
                >((registry@, registry.size())),
                Err(problem) => expected(*config) == Err::<(Seq<RoomView>, nat), ConfigError>(
                    problem,
                ),
            },
    {
        let count = config.rooms.len();
        if count == 0 {
            return Err(ConfigError::NoRooms);
        }
        let account = match read_address(config.jid.as_str()) {
            Some(account) => account,
            None => {
                return Err(ConfigError::AccountUnparsable);
            },
        };
        let mut rooms: Vec<Room> = Vec::new();
        let mut top: usize = 0;
        let mut i: usize = 0;
        assert(views(rooms@) == registered(*config, 0));
        while i < count
            invariant
                count == config.rooms@.len(),
                i <= count,
                parsed_bare_jid(config.jid@) == Some(account.parts()),
                first_problem(*config, i as nat) is None,
                views(rooms@) == registered(*config, i as nat),
                top == highest_configured(*config, i as nat),
                addresses_distinct(views(rooms@)),
                rooms_fit(views(rooms@), (top + 1) as nat),
            decreases count - i,
        {
            let entry = &config.rooms[i];
            let ghost wanted = configured_room(*config, i as int);
            let nick = resolve_nick(&entry.nick, &config.nick, &account.local);
            let address = match read_address(entry.room.as_str()) {
                Some(address) => address,
                None => {
                    assert(first_problem(*config, count as nat) == Some(
                        ConfigError::RoomUnparsable(i),
                    )) by {
                        lemma_first_problem_stays(*config, (i + 1) as nat, count as nat);
                    }
                    return Err(ConfigError::RoomUnparsable(i));
                },
            };
            let local = match address.local {
                Some(local) => local,
                None => {
                    assert(first_problem(*config, count as nat) == Some(
                        ConfigError::RoomWithoutLocalPart(i),
                    )) by {
                        lemma_first_problem_stays(*config, (i + 1) as nat, count as nat);
                    }
                    return Err(ConfigError::RoomWithoutLocalPart(i));
                },
            };
            let chains = normalize_chains(&entry.chain_indices);
            let here = highest_of(&chains);
            let ghost before = top;
            if here > top {
                top = here;
            }
            let room = Room::assemble(nick, local, address.domain, chains);
            assert(room@ == wanted);
            proof {
                lemma_highest(room@.chains);
                assert(rooms_fit(seq![room@], (top + 1) as nat)) by {
                    assert(seq![room@][0] == room@);
                }
                assert(rooms_fit(views(rooms@), (top + 1) as nat)) by {
                    assert(rooms_fit(views(rooms@), (before + 1) as nat));
                }
                lemma_upsert(views(rooms@), room@, (top + 1) as nat);
            }
            put(&mut rooms, room);
            i += 1;
        }
        if top == usize::MAX {
            return Err(ConfigError::TooManyChains);
        }
        Ok(Registry { rooms, pool_size: top + 1 })
    }

    /// The size of the pool that the rooms need: one more than the highest
    /// chain of any room that was configured.
    pub fn pool_size(&self) -> (size: usize)
        ensures
            size == self.size(),
    {
        self.pool_size
    }

    /// The number of rooms.
    pub fn len(&self) -> (count: usize)
        ensures
            count == self@.len(),
    {
        self.rooms.len()
    }

    /// The room at `place`.
    pub fn room(&self, place: usize) -> (room: &Room)
        requires
            place < self@.len(),
        ensures
            room@ == self@[place as int],
    {
        &self.rooms[place]
    }

    /// The place of the room with the address `local`, `domain`.
    pub fn find(&self, local: &str, domain: &str) -> (place: Option<usize>)
        ensures
            match place {
                Some(place) => position(self@, local@, domain@) == Some(place as int) && place
                    < self@.len(),
                None => position(self@, local@, domain@) is None,
            },
    {
        place_of(&self.rooms, local, domain)
    }

    /// The room with the address `local`, `domain`.
    pub fn lookup(&self, local: &str, domain: &str) -> (room: Option<&Room>)
        ensures
            match room {
                Some(room) => room_at(self@, local@, domain@) == Some(room@),
                None => room_at(self@, local@, domain@) is None,
            },
    {
        match self.find(local, domain) {
            Some(place) => Some(&self.rooms[place]),
            None => None,
        }
    }

    /// Has the room at `place` answer, or not, one message heard in it at
    /// `now`.
    pub fn respond_in(
        &mut self,
        place: usize,
        body: &str,
        now: Moment,
        jokes: &Vec<String>,
        pool: &mut GeneratorPool,
        dice: &mut Dice,
    ) -> (reply: Option<String>)
        requires
            old(self).wf(),
            old(pool).wf(),
            place < old(self)@.len(),
            old(self).size() <= old(pool)@.len(),
        ensures
            final(self).wf(),
            final(self).size() == old(self).size(),
            final(pool).wf(),
            final(dice).follows(*old(dice)),
            ({
                let room = old(self)@[place as int];
                let decision = response(
                    room.cooldowns,
                    room.nick,
                    body@,
                    now,
                    texts(jokes@),
                    final(dice).since(*old(dice)),
                );
                &&& final(dice).bounds_since(*old(dice)) == decision.bounds
                &&& final(self)@ == old(self)@.update(
                    place as int,
                    room.with_cooldowns(decision.cooldowns),
                )
                &&& outcome_fits(
                    decision.plan,
                    room.primary(),
                    seed_of(room.nick, body@),
                    *old(pool),
                    *final(pool),
                    text_of(reply),
                )
            }),
    {
        proof {
            let room = self@[place as int];
            assert(chains_ok(room.chains));
            let k = choose|k: int| 0 <= k < room.chains.len() && room.chains[k] == 0;
            assert(room.chains[0] < self.size());
        }
        let reply = self.rooms[place].respond(body, now, jokes, pool, dice);
        proof {
            let before = old(self)@;
            let after = self@;
            assert(after =~= before.update(
                place as int,
                before[place as int].with_cooldowns(after[place as int].cooldowns),
            ));
            assert forall|i: int| 0 <= i < after.len() implies after[i].local == before[i].local
                && after[i].domain == before[i].domain && after[i].chains == before[i].chains by {}
            assert(addresses_distinct(after)) by {
                assert forall|i: int, j: int| 0 <= i < j < after.len() implies !is_at(
                    #[trigger] after[i],
                    (#[trigger] after[j]).local,
                    after[j].domain,
                ) by {
                    assert(!is_at(before[i], before[j].local, before[j].domain));
                }
            }
            assert(rooms_fit(after, self.size())) by {
                assert forall|i: int| 0 <= i < after.len() implies chains_ok(
                    (#[trigger] after[i]).chains,
                ) && forall|k: int|
                    0 <= k < after[i].chains.len() ==> (#[trigger] after[i].chains[k])
                        < self.size() by {
                    assert(chains_ok(before[i].chains));
                }
            }
        }
        reply
    }
}

/// Once a room is found that cannot be used, it stays the first such room
/// however many more rooms are looked at.
pub proof fn lemma_first_problem_stays(config: Config, found: nat, count: nat)
    requires
        found <= count,
        first_problem(config, found) is Some,
    ensures
        first_problem(config, count) == first_problem(config, found),
    decreases count,
{
    if found < count {
        lemma_first_problem_stays(config, found, (count - 1) as nat);
    }
}

/// The place among `rooms` of the first room with the address `local`,
/// `domain`.
fn place_of(rooms: &Vec<Room>, local: &str, domain: &str) -> (place: Option<usize>)
    ensures
        match place {
            Some(place) => position(views(rooms@), local@, domain@) == Some(place as int) && place
                < rooms@.len(),
            None => position(views(rooms@), local@, domain@) is None,
        },
{
    proof {
        lemma_position(views(rooms@), local@, domain@);
    }
    let mut i: usize = 0;
    while i < rooms.len()
        invariant
            i <= rooms.len(),
            forall|j: int| 0 <= j < i ==> !is_at(#[trigger] views(rooms@)[j], local@, domain@),
        decreases rooms.len() - i,
    {
        if same_text(rooms[i].local(), local) && same_text(rooms[i].domain(), domain) {
            proof {
                lemma_position(views(rooms@), local@, domain@);
                assert(is_at(views(rooms@)[i as int], local@, domain@));
            }
            return Some(i);
        }
        i += 1;
    }
    None
}

/// Puts `room` among `rooms`: in place of the room with the same address
/// where there is one, at the end where there is none.
fn put(rooms: &mut Vec<Room>, room: Room)
    ensures
        views(final(rooms)@) == upsert(views(old(rooms)@), room@),
{
    match place_of(rooms, room.local(), room.domain()) {
        Some(place) => {
            rooms.set(place, room);
            assert(views(rooms@) =~= views(old(rooms)@).update(place as int, room@));
        },
        None => {
            rooms.push(room);
            assert(views(rooms@) =~= views(old(rooms)@).push(room@));
        },
    }
}

} // verus!
