//! What holds of the engine as a whole, proved from the definitions that
//! the contracts of the other modules are stated in.

use crate::chains::{effective_chains, highest, lemma_effective_chains, lemma_highest, listed};
use crate::clock::{whole_seconds_between, Moment};
use crate::config::{configured_room, Config, ConfigError};
use crate::dice::Dice;
use crate::policy::{
    ambient_decision, category_open, directed_bounds, directed_plan, request_in, response,
};
use crate::reply::PlanView;
use crate::text::trim;
use crate::registry::{
    expected, highest_configured, lemma_position, position, registered, upsert,
};
use crate::replay::{binds, chains_fed, learned, replayed, PersistedMessage};
use crate::room::RoomView;
use crate::router::{heard, Action, Bot, Event};
use crate::trigger::{Cooldowns, TriggerCategory};
use vstd::prelude::*;

verus! {

/// Every room that a configuration registers is bound to chain 0, whatever
/// the configuration lists for it, and every registered room is one of the
/// configured rooms.
pub proof fn law_rooms_feed_chain_zero(config: Config, count: nat)
    requires
        count <= config.rooms@.len(),
    ensures
        forall|i: int|
            0 <= i < registered(config, count).len() ==> (#[trigger] registered(
                config,
                count,
            )[i]).chains.contains(0),
        forall|i: int|
            0 <= i < registered(config, count).len() ==> exists|k: int|
                0 <= k < count && #[trigger] registered(config, count)[i] == configured_room(
                    config,
                    k,
                ),
    decreases count,
{
    if count > 0 {
        let before = registered(config, (count - 1) as nat);
        let room = configured_room(config, count - 1);
        let after = registered(config, count);
        law_rooms_feed_chain_zero(config, (count - 1) as nat);
        lemma_effective_chains(listed(config.rooms@[count - 1].chain_indices));
        lemma_position(before, room.local, room.domain);
        assert forall|i: int| 0 <= i < after.len() implies (#[trigger] after[i]).chains.contains(
            0,
        ) && exists|k: int| 0 <= k < count && after[i] == configured_room(config, k) by {
            if after[i] == room {
                assert(after[i] == configured_room(config, count - 1));
            } else {
                assert(after[i] == before[i]);
                let k = choose|k: int| 0 <= k < count - 1 && before[i] == configured_room(config, k);
                assert(after[i] == configured_room(config, k));
            }
        }
    }
}

/// The highest configured chain is at least every chain of every
/// configured room, and is one of them or zero.
pub proof fn law_highest_configured(config: Config, count: nat)
    requires
        count <= config.rooms@.len(),
    ensures
        forall|k: int, j: int|
            0 <= k < count && 0 <= j < configured_room(config, k).chains.len()
                ==> #[trigger] configured_room(config, k).chains[j] <= highest_configured(
                config,
                count,
            ),
        count > 0 ==> exists|k: int, j: int|
            0 <= k < count && 0 <= j < configured_room(config, k).chains.len()
                && #[trigger] configured_room(config, k).chains[j] == highest_configured(
                config,
                count,
            ),
    decreases count,
{
    if count > 0 {
        let last = count - 1;
        let chains = effective_chains(listed(config.rooms@[last].chain_indices));
        assert(configured_room(config, last).chains == chains);
        lemma_highest(chains);
        lemma_effective_chains(listed(config.rooms@[last].chain_indices));
        law_highest_configured(config, last as nat);
        let top = highest_configured(config, count);
        if highest(chains) > highest_configured(config, last as nat) || last == 0 {
            assert(top == highest(chains));
            let j = choose|j: int| 0 <= j < chains.len() && chains[j] == highest(chains) as usize;
            assert(configured_room(config, last).chains[j] == top);
        } else {
            let (k, j) = choose|k: int, j: int|
                0 <= k < last && 0 <= j < configured_room(config, k).chains.len()
                    && #[trigger] configured_room(config, k).chains[j] == highest_configured(
                    config,
                    last as nat,
                );
            assert(configured_room(config, k).chains[j] == top);
        }
    }
}

/// The pool that a usable configuration asks for has one chain more than
/// the highest chain of any configured room: every configured chain is a
/// chain of the pool, and the last chain of the pool is a configured one.
pub proof fn law_pool_size(config: Config, rooms: Seq<RoomView>, size: nat)
    requires
        expected(config) == Ok::<(Seq<RoomView>, nat), ConfigError>((rooms, size)),
    ensures
        size == 1 + highest_configured(config, config.rooms@.len()),
        forall|k: int, j: int|
            0 <= k < config.rooms@.len() && 0 <= j < configured_room(config, k).chains.len()
                ==> #[trigger] configured_room(config, k).chains[j] < size,
        exists|k: int, j: int|
            0 <= k < config.rooms@.len() && 0 <= j < configured_room(config, k).chains.len()
                && #[trigger] configured_room(config, k).chains[j] == size - 1,
{
    law_highest_configured(config, config.rooms@.len());
}

/// The bot passes over the echo of what it said itself: a message from a
/// registered room whose sender goes by the bot's nick there is not taken
/// in, so that handling it says nothing, logs nothing and changes neither
/// rooms nor chains. Where the echo has a body, it causes no action at
/// all.
pub proof fn law_self_echo(before: Bot, after: Bot, event: Event, now: Moment, actions: Seq<Action>)
    requires
        before.handled(after, event, now, actions),
        event matches Event::Message { from: Some(sender), .. } && sender.local is Some
            && sender.resource is Some && (position(
            before.rooms(),
            sender.local->0@,
            sender.domain@,
        ) matches Some(place) && before.rooms()[place].nick == sender.resource->0@),
    ensures
        heard(before.rooms(), event) is None,
        before.untouched(after),
        forall|i: int| 0 <= i < actions.len() ==> #[trigger] actions[i] is Report,
        event matches Event::Message { body: Some(_), .. } ==> actions.len() == 0,
{
}

/// What is said to the bot is answered whatever the cooldowns and the
/// clock say, and leaves the cooldowns alone: asked twice on end, the bot
/// plans the same answer twice.
pub proof fn law_directed_bypasses_cooldown(
    nick: Seq<char>,
    body: Seq<char>,
    jokes: Seq<Seq<char>>,
    rolls: Seq<u64>,
    first: Cooldowns,
    first_now: Moment,
    second: Cooldowns,
    second_now: Moment,
)
    requires
        request_in(body, nick) is Some,
    ensures
        response(first, nick, body, first_now, jokes, rolls).plan == response(
            second,
            nick,
            body,
            second_now,
            jokes,
            rolls,
        ).plan,
        response(first, nick, body, first_now, jokes, rolls).bounds == response(
            second,
            nick,
            body,
            second_now,
            jokes,
            rolls,
        ).bounds,
        response(first, nick, body, first_now, jokes, rolls).cooldowns == first,
        response(first, nick, body, first_now, jokes, rolls).fired is None,
{
}

/// At most one category fires on a message, and the categories go by
/// priority: only the cooldown of the category that fired moves, and a
/// category fires only where no category before it was both open and
/// favoured by its roll.
pub proof fn law_one_category_fires(
    cooldowns: Cooldowns,
    body: Seq<char>,
    now: Moment,
    jokes: Seq<Seq<char>>,
    rolls: Seq<u64>,
)
    ensures
        ({
            let decision = ambient_decision(cooldowns, body, now, jokes, rolls);
            let first = TriggerCategory::ProtocolIdentity;
            let second = TriggerCategory::LightHumor;
            &&& decision.fired is None ==> decision.cooldowns == cooldowns
            &&& forall|category: TriggerCategory|
                decision.fired == Some(category) ==> decision.cooldowns == cooldowns.fired(
                    category,
                    now,
                ) && category_open(cooldowns, category, now, body)
            &&& forall|category: TriggerCategory|
                decision.fired != Some(category) ==> decision.cooldowns.last_fired(category)
                    == cooldowns.last_fired(category)
            &&& category_open(cooldowns, first, now, body) && rolls[0] < first.fire_chance()
                ==> decision.fired == Some(first)
            &&& decision.fired == Some(second) ==> !(category_open(cooldowns, first, now, body)
                && rolls[0] < first.fire_chance())
        }),
{
}

/// A category that has fired does not fire again before its interval has
/// passed, whatever is said and however the dice fall.
pub proof fn law_cooldown_gates(
    cooldowns: Cooldowns,
    category: TriggerCategory,
    then: Moment,
    body: Seq<char>,
    now: Moment,
    jokes: Seq<Seq<char>>,
    rolls: Seq<u64>,
)
    requires
        cooldowns.last_fired(category) == Some(then),
        whole_seconds_between(then, now) < category.min_interval(),
    ensures
        !category_open(cooldowns, category, now, body),
        ambient_decision(cooldowns, body, now, jokes, rolls).fired != Some(category),
        ambient_decision(cooldowns, body, now, jokes, rolls).cooldowns.last_fired(category)
            == Some(then),
{
}

/// Firing starts the cooldown: after a decision in which a category fired
/// at `then`, that category stays shut for every message heard before its
/// interval has passed.
pub proof fn law_fired_category_rests(
    cooldowns: Cooldowns,
    category: TriggerCategory,
    then: Moment,
    body: Seq<char>,
    jokes: Seq<Seq<char>>,
    rolls: Seq<u64>,
    next_body: Seq<char>,
    now: Moment,
    next_rolls: Seq<u64>,
)
    requires
        ambient_decision(cooldowns, body, then, jokes, rolls).fired == Some(category),
        whole_seconds_between(then, now) < category.min_interval(),
    ensures
        ambient_decision(
            ambient_decision(cooldowns, body, then, jokes, rolls).cooldowns,
            next_body,
            now,
            jokes,
            next_rolls,
        ).fired != Some(category),
{
    law_one_category_fires(cooldowns, body, then, jokes, rolls);
    let rested = ambient_decision(cooldowns, body, then, jokes, rolls).cooldowns;
    assert(rested.last_fired(category) == Some(then));
    law_cooldown_gates(rested, category, then, next_body, now, jokes, next_rolls);
}

/// One of the jokes: `plan` is to tell a joke of `jokes`.
pub open spec fn tells_a_joke(plan: PlanView, jokes: Seq<Seq<char>>) -> bool {
    exists|i: int| 0 <= i < jokes.len() && plan == PlanView::Say(#[trigger] jokes[i])
}

/// Asked for a joke, the bot tells one of its jokes, if it knows any: the
/// roll that chooses lies below their number.
pub proof fn law_directed_joke(
    request: Seq<char>,
    jokes: Seq<Seq<char>>,
    before: Dice,
    after: Dice,
)
    requires
        after.follows(before),
        after.bounds_since(before) == directed_bounds(request, jokes),
        trim(request) == "dad"@,
        jokes.len() > 0,
    ensures
        tells_a_joke(directed_plan(request, jokes, after.since(before)), jokes),
{
    reveal_strlit("dad");
    reveal_strlit("jabber");
    assert("dad"@.len() != "jabber"@.len());
    let rolls = after.since(before);
    assert(rolls[0] < after.bounds_since(before)[0]);
    assert(directed_plan(request, jokes, rolls) == PlanView::Say(jokes[rolls[0] as int]));
}

/// Where light humor fires, or ambient chatter fires on a low coin, the
/// bot tells one of its jokes, if it knows any.
pub proof fn law_ambient_joke(
    cooldowns: Cooldowns,
    body: Seq<char>,
    now: Moment,
    jokes: Seq<Seq<char>>,
    before: Dice,
    after: Dice,
)
    requires
        after.follows(before),
        after.bounds_since(before) == ambient_decision(
            cooldowns,
            body,
            now,
            jokes,
            after.since(before),
        ).bounds,
        jokes.len() > 0,
        ({
            let decision = ambient_decision(cooldowns, body, now, jokes, after.since(before));
            decision.fired == Some(TriggerCategory::LightHumor) || (decision.fired == Some(
                TriggerCategory::AmbientChatter,
            ) && !(decision.plan is Generate))
        }),
    ensures
        tells_a_joke(
            ambient_decision(cooldowns, body, now, jokes, after.since(before)).plan,
            jokes,
        ),
{
    let rolls = after.since(before);
    let decision = ambient_decision(cooldowns, body, now, jokes, rolls);
    let last = decision.bounds.len() - 1;
    assert(decision.bounds[last] == jokes.len() as u64);
    assert(rolls[last] < after.bounds_since(before)[last]);
    let told = rolls.skip(last);
    assert(told[0] == rolls[last]);
    assert(decision.plan == PlanView::Say(jokes[rolls[last] as int]));
}

/// What the chains hold after a replay depends on the rooms and the log
/// alone: into pools that have learned nothing, the same log replays to the
/// same corpora, chain by chain what `learned` gives.
pub proof fn law_replay_repeats(
    rooms: Seq<RoomView>,
    log: Seq<PersistedMessage>,
    first: Seq<Seq<Seq<char>>>,
    second: Seq<Seq<Seq<char>>>,
)
    requires
        first.len() == second.len(),
        forall|i: int| 0 <= i < first.len() ==> (#[trigger] first[i]).len() == 0,
        forall|i: int| 0 <= i < second.len() ==> (#[trigger] second[i]).len() == 0,
    ensures
        replayed(rooms, first, log) == replayed(rooms, second, log),
        forall|i: int|
            0 <= i < first.len() ==> #[trigger] replayed(rooms, first, log)[i] == learned(
                rooms,
                log,
                i,
            ),
{
    assert forall|i: int| 0 <= i < first.len() implies #[trigger] replayed(rooms, first, log)[i]
        == learned(rooms, log, i) && replayed(rooms, second, log)[i] == learned(rooms, log, i) by {
        assert(first[i] + learned(rooms, log, i) =~= learned(rooms, log, i));
        assert(second[i] + learned(rooms, log, i) =~= learned(rooms, log, i));
    }
    assert(replayed(rooms, first, log) =~= replayed(rooms, second, log));
}

/// A logged message whose room is not registered is fed to chain 0 and to
/// no other chain.
pub proof fn law_unknown_room_feeds_chain_zero(
    rooms: Seq<RoomView>,
    local: Seq<char>,
    domain: Seq<char>,
    chain: int,
)
    requires
        position(rooms, local, domain) is None,
    ensures
        binds(chains_fed(rooms, local, domain), chain) <==> chain == 0,
{
    let chains = chains_fed(rooms, local, domain);
    assert(chains == seq![0usize]);
    assert(chains[0] == 0);
}

} // verus!
