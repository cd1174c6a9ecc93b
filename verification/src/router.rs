//! The message router: one step of the bot per event. The program around
//! the library hands each event in with the reading of its clock, and
//! carries out the actions that come back, in their order.

use crate::clock::Moment;
use crate::config::{Config, ConfigError};
use crate::dice::{lemma_no_rolls, Dice};
use crate::policy::{response, seed_of};
use crate::pool::{Ask, GeneratorPool};
use crate::registry::{expected, position, Registry};
use crate::replay::{fed, feed, replay, replayed, PersistedMessage};
use crate::reply::{reply_fits, PlanView};
use crate::room::RoomView;
use crate::text::same_text;
use crate::trigger::texts;
use vstd::prelude::*;
use vstd::string::*;

verus! {

/// Who sent a message: an address with, for someone in a room, the room's
/// local part and the sender's name in the room as resource.
#[derive(Clone, Debug, PartialEq, Eq)]
pub struct Sender {
    pub local: Option<String>,
    pub domain: String,
    pub resource: Option<String>,
}

/// What the protocol client reports.
#[derive(Clone, Debug, PartialEq, Eq)]
pub enum Event {
    /// The session is up, for the first time or again.
    Online,
    /// A message came in.
    Message { from: Option<Sender>, body: Option<String>, is_error: bool },
}

/// What the program is to do for the bot.
#[derive(Clone, Debug, PartialEq, Eq)]
pub enum Action {
    /// Join the room `local`@`domain` under `nick`, and ask the room for no
    /// more than `history_stanzas` messages of its backlog.
    Join { local: String, domain: String, nick: String, history_stanzas: u32 },
    /// Say `body` to everyone in the room `local`@`domain`.
    Say { local: String, domain: String, body: String },
    /// Append this message to the log.
    Persist(PersistedMessage),
    /// Note that a message was dropped, and why.
    Report(Dropped),
}

/// Why a message was dropped with a note.
#[derive(Clone, Copy, Debug, PartialEq, Eq, Structural)]
pub enum Dropped {
    /// It has no sender or no body.
    Incomplete,
    /// Its sender is not someone in a room.
    NotInARoom,
    /// Its room is not registered.
    UnknownRoom,
}

/// A message that the bot takes in: the place of its room in the registry,
/// the name of the sender in the room, and what was said.
pub struct Heard {
    pub place: int,
    pub sender: Seq<char>,
    pub body: Seq<char>,
}

/// Whether the bot takes an event in as a message, and what it then heard.
/// It passes over an error, a message without sender or without body, a
/// sender that is not someone in a room, a room that is not registered, and
/// the echo of what it said itself.
pub open spec fn heard(rooms: Seq<RoomView>, event: Event) -> Option<Heard> {
    match event {
        Event::Online => None,
        Event::Message { from, body, is_error } => {
            if is_error {
                None
            } else {
                match (from, body) {
                    (Some(sender), Some(body)) => match (sender.local, sender.resource) {
                        (Some(local), Some(resource)) => match position(
                            rooms,
                            local@,
                            sender.domain@,
                        ) {
                            Some(place) => if resource@ == rooms[place].nick {
                                None
                            } else {
                                Some(Heard { place, sender: resource@, body: body@ })
                            },
                            None => None,
                        },
                        _ => None,
                    },
                    _ => None,
                }
            }
        },
    }
}

/// The note that is due on an event that the bot does not take in. A
/// message without sender or body is noted, whatever else it is; an error
/// and the echo of what the bot said itself are dropped without a note.
pub open spec fn dropped(rooms: Seq<RoomView>, event: Event) -> Option<Dropped> {
    match event {
        Event::Online => None,
        Event::Message { from, body, is_error } => match (from, body) {
            (Some(sender), Some(body)) => {
                if is_error {
                    None
                } else {
                    match (sender.local, sender.resource) {
                        (Some(local), Some(resource)) => match position(
                            rooms,
                            local@,
                            sender.domain@,
                        ) {
                            Some(place) => None,
                            None => Some(Dropped::UnknownRoom),
                        },
                        _ => Some(Dropped::NotInARoom),
                    }
                }
            },
            _ => Some(Dropped::Incomplete),
        },
    }
}

/// `actions` are what is due on an event that the bot does not take in:
/// the note, where one is due, and nothing else.
pub open spec fn notes(actions: Seq<Action>, note: Option<Dropped>) -> bool {
    match note {
        Some(why) => actions.len() == 1 && actions[0] == Action::Report(why),
        None => actions.len() == 0,
    }
}

/// `action` is the request to join `room` without any backlog.
pub open spec fn is_join(action: Action, room: RoomView) -> bool {
    match action {
        Action::Join { local, domain, nick, history_stanzas } => local@ == room.local && domain@
            == room.domain && nick@ == room.nick && history_stanzas == 0,
        _ => false,
    }
}

/// `action` is to say `text` in `room`.
pub open spec fn is_say(action: Action, room: RoomView, text: Seq<char>) -> bool {
    match action {
        Action::Say { local, domain, body } => local@ == room.local && domain@ == room.domain
            && body@ == text,
        _ => false,
    }
}

/// `action` is to log what was heard in `room`.
pub open spec fn is_persist(action: Action, room: RoomView, heard: Heard) -> bool {
    match action {
        Action::Persist(message) => message.room_local@ == room.local && message.room_domain@
            == room.domain && message.sender_nick@ == heard.sender && message.body@ == heard.body,
        _ => false,
    }
}

/// What the actions of one turn say in the room, if anything.
pub open spec fn said(actions: Seq<Action>) -> Option<Seq<char>> {
    if actions.len() == 2 {
        match actions[0] {
            Action::Say { local, domain, body } => Some(body@),
            _ => None,
        }
    } else {
        None
    }
}

/// `actions` are the actions of a turn in which `reply` is the answer to
/// what was heard in `room`: the reply, if there is one, goes to the room,
/// and the message goes to the log in any case.
pub open spec fn turn_actions(
    actions: Seq<Action>,
    room: RoomView,
    heard: Heard,
    reply: Option<Seq<char>>,
) -> bool {
    match reply {
        Some(text) => actions.len() == 2 && is_say(actions[0], room, text) && is_persist(
            actions[1],
            room,
            heard,
        ),
        None => actions.len() == 1 && is_persist(actions[0], room, heard),
    }
}

/// The bot: the rooms, the chains, the jokes it knows and its dice.
pub struct Bot {
    registry: Registry,
    pool: GeneratorPool,
    jokes: Vec<String>,
    dice: Dice,
}

impl Bot {
    /// The rooms.
    pub closed spec fn rooms(&self) -> Seq<RoomView> {
        self.registry@
    }

    /// For each chain, what it has learned from.
    pub closed spec fn corpora(&self) -> Seq<Seq<Seq<char>>> {
        self.pool@
    }

    /// What the chains have been asked.
    pub closed spec fn asked(&self) -> Seq<Ask> {
        self.pool.asked()
    }

    /// The jokes.
    pub closed spec fn jokes(&self) -> Seq<Seq<char>> {
        texts(self.jokes@)
    }

    /// The dice.
    pub closed spec fn dice(&self) -> Dice {
        self.dice
    }

    /// The registry and the pool are sound, and the pool has exactly the
    /// chains that the rooms need.
    pub closed spec fn wf(&self) -> bool {
        &&& self.registry.wf()
        &&& self.pool.wf()
        &&& self.registry.size() == self.pool@.len()
    }

    /// `after` is this bot after a turn that changed neither rooms nor
    /// chains and rolled no dice.
    pub open spec fn untouched(&self, after: Bot) -> bool {
        &&& after.rooms() == self.rooms()
        &&& after.corpora() == self.corpora()
        &&& after.asked() == self.asked()
        &&& after.jokes() == self.jokes()
        &&& after.dice().follows(self.dice())
        &&& after.dice().since(self.dice()).len() == 0
    }

    /// `after` and `actions` are what this bot makes of `event` at `now`.
    ///
    /// When the session comes up, the bot asks to join every room, in the
    /// order of the registry, and nothing else changes. A message that it
    /// does not take in changes nothing and causes at most a note. A message that
    /// it takes in is answered as `response` decides, with the room's first
    /// chain to speak from; it is logged, and fed to every chain of the
    /// room, whether or not there was an answer.
    pub open spec fn handled(&self, after: Bot, event: Event, now: Moment, actions: Seq<Action>) -> bool {
        match event {
            Event::Online => {
                &&& self.untouched(after)
                &&& actions.len() == self.rooms().len()
                &&& forall|i: int|
                    0 <= i < actions.len() ==> is_join(#[trigger] actions[i], self.rooms()[i])
            },
            Event::Message { .. } => match heard(self.rooms(), event) {
                None => self.untouched(after) && notes(actions, dropped(self.rooms(), event)),
                Some(heard) => {
                    let room = self.rooms()[heard.place];
                    let rolls = after.dice().since(self.dice());
                    let decision = response(
                        room.cooldowns,
                        room.nick,
                        heard.body,
                        now,
                        self.jokes(),
                        rolls,
                    );
                    &&& after.dice().follows(self.dice())
                    &&& after.dice().bounds_since(self.dice()) == decision.bounds
                    &&& after.jokes() == self.jokes()
                    &&& after.rooms() == self.rooms().update(
                        heard.place,
                        room.with_cooldowns(decision.cooldowns),
                    )
                    &&& after.corpora() == fed(self.corpora(), room.chains, heard.body)
                    &&& after.asked() == if decision.plan is Generate {
                        self.asked().push(
                            Ask { chain: room.primary(), seed: seed_of(room.nick, heard.body) },
                        )
                    } else {
                        self.asked()
                    }
                    &&& reply_fits(decision.plan, self.corpora()[room.primary()], said(actions))
                    &&& turn_actions(actions, room, heard, said(actions))
                },
            },
        }
    }

    /// Sets the bot up from its configuration, with chains that have
    /// learned nothing yet, or says what is wrong with the configuration.
    pub fn new(config: &Config, jokes: Vec<String>, dice: Dice) -> (result: Result<
        Bot,
        ConfigError,
    >)
        ensures
            match result {
                Ok(bot) => {
                    &&& bot.wf()
                    &&& expected(*config) == Ok::<(Seq<RoomView>, nat), ConfigError>(
                        (bot.rooms(), bot.corpora().len()),
                    )
                    &&& forall|i: int|
                        0 <= i < bot.corpora().len() ==> (#[trigger] bot.corpora()[i]).len() == 0
                    &&& bot.asked() == Seq::<Ask>::empty()
                    &&& bot.jokes() == texts(jokes@)
                    &&& bot.dice() == dice
                },
                Err(problem) => expected(*config) == Err::<(Seq<RoomView>, nat), ConfigError>(
                    problem,
                ),
            },
    {
        match Registry::from_config(config) {
            Ok(registry) => {
                let pool = GeneratorPool::new(registry.pool_size());
                Ok(Bot { registry, pool, jokes, dice })
            },
            Err(problem) => Err(problem),
        }
    }

    /// The registry.
    pub fn registry(&self) -> (registry: &Registry)
        ensures
            registry@ == self.rooms(),
            self.wf() ==> registry.wf() && registry.size() == self.corpora().len(),
    {
        &self.registry
    }

    /// The pool.
    pub fn pool(&self) -> (pool: &GeneratorPool)
        ensures
            pool@ == self.corpora(),
            pool.asked() == self.asked(),
            self.wf() ==> pool.wf(),
    {
        &self.pool
    }

    /// Teaches the chains from the log, oldest message first: each message
    /// goes to the chains of its room, or to chain 0 where its room is not
    /// registered.
    pub fn replay(&mut self, log: &Vec<PersistedMessage>)
        requires
            old(self).wf(),
        ensures
            final(self).wf(),
            final(self).corpora() == replayed(old(self).rooms(), old(self).corpora(), log@),
            final(self).rooms() == old(self).rooms(),
            final(self).asked() == old(self).asked(),
            final(self).jokes() == old(self).jokes(),
            final(self).dice() == old(self).dice(),
    {
        replay(&self.registry, &mut self.pool, log);
    }

    /// The requests to join every room.
    fn joins(&self) -> (actions: Vec<Action>)
        ensures
            actions@.len() == self.rooms().len(),
            forall|i: int| 0 <= i < actions@.len() ==> is_join(#[trigger] actions@[i], self.rooms()[i]),
    {
        let mut actions: Vec<Action> = Vec::new();
        let mut i: usize = 0;
        while i < self.registry.len()
            invariant
                i <= self.registry@.len(),
                actions@.len() == i,
                forall|k: int| 0 <= k < i ==> is_join(#[trigger] actions@[k], self.registry@[k]),
            decreases self.registry@.len() - i,
        {
            let room = self.registry.room(i);
            actions.push(
                Action::Join {
                    local: room.local().to_owned(),
                    domain: room.domain().to_owned(),
                    nick: room.nick().to_owned(),
                    history_stanzas: 0,
                },
            );
            i += 1;
        }
        actions
    }

    /// Takes one event at `now` and says what is to be done about it.
    pub fn handle(&mut self, event: &Event, now: Moment) -> (actions: Vec<Action>)
        requires
            old(self).wf(),
        ensures
            final(self).wf(),
            old(self).handled(*final(self), *event, now, actions@),
    {
        proof {
            lemma_no_rolls(self.dice);
        }
        let mut actions: Vec<Action> = Vec::new();
        match event {
            Event::Online => {
                return self.joins();
            },
            Event::Message { from, body, is_error } => {
                let sender = match from {
                    Some(sender) => sender,
                    None => {
                        actions.push(Action::Report(Dropped::Incomplete));
                        return actions;
                    },
                };
                let body = match body {
                    Some(body) => body,
                    None => {
                        actions.push(Action::Report(Dropped::Incomplete));
                        return actions;
                    },
                };
                if *is_error {
                    return actions;
                }
                let local = match &sender.local {
                    Some(local) => local,
                    None => {
                        actions.push(Action::Report(Dropped::NotInARoom));
                        return actions;
                    },
                };
                let resource = match &sender.resource {
                    Some(resource) => resource,
                    None => {
                        actions.push(Action::Report(Dropped::NotInARoom));
                        return actions;
                    },
                };
                let place = match self.registry.find(local.as_str(), sender.domain.as_str()) {
                    Some(place) => place,
                    None => {
                        actions.push(Action::Report(Dropped::UnknownRoom));
                        return actions;
                    },
                };
                if same_text(resource.as_str(), self.registry.room(place).nick()) {
                    return actions;
                }
                let ghost room = self.registry@[place as int];
                let ghost what = Heard { place: place as int, sender: resource@, body: body@ };
                assert(heard(self.rooms(), *event) == Some(what));
                proof {
                    crate::registry::lemma_position(self.registry@, local@, sender.domain@);
                }
                let reply = self.registry.respond_in(
                    place,
                    body.as_str(),
                    now,
                    &self.jokes,
                    &mut self.pool,
                    &mut self.dice,
                );
                match reply {
                    Some(text) => {
                        actions.push(
                            Action::Say {
                                local: local.clone(),
                                domain: sender.domain.clone(),
                                body: text,
                            },
                        );
                    },
                    None => {},
                }
                actions.push(
                    Action::Persist(
                        PersistedMessage {
                            room_local: local.clone(),
                            room_domain: sender.domain.clone(),
                            sender_nick: resource.clone(),
                            body: body.clone(),
                        },
                    ),
                );
                feed(&mut self.pool, self.registry.room(place).chain_indices(), body.as_str());
                actions
            },
        }
    }
}

} // verus!
