//! One joined room: who the bot is in it, which chains it is bound to, and
//! when its triggers last fired.

use crate::chains::{chains_ok, effective_chains, normalize_chains};
use crate::clock::Moment;
use crate::dice::Dice;
use crate::policy::{
    ambient_decision, directed_bounds, directed_plan, directed_request, plan_ambient,
    plan_directed, response, seed_of,
};
use crate::pool::GeneratorPool;
use crate::reply::{outcome_fits, perform};
use crate::text::to_lowercase;
use crate::trigger::{text_of, texts, Cooldowns};
use vstd::prelude::*;
use vstd::string::*;

verus! {

/// A room.
pub struct Room {
    nick: String,
    local: String,
    domain: String,
    chain_indices: Vec<usize>,
    cooldowns: Cooldowns,
}

/// A room as the contracts see it.
pub struct RoomView {
    /// The name the bot goes by in the room.
    pub nick: Seq<char>,
    /// The local part of the room's address.
    pub local: Seq<char>,
    /// The domain of the room's address.
    pub domain: Seq<char>,
    /// The chains that the room feeds; it speaks from the first.
    pub chains: Seq<usize>,
    /// When each trigger last fired here.
    pub cooldowns: Cooldowns,
}

impl View for Room {
    type V = RoomView;

    closed spec fn view(&self) -> RoomView {
        RoomView {
            nick: self.nick@,
            local: self.local@,
            domain: self.domain@,
            chains: self.chain_indices@,
            cooldowns: self.cooldowns,
        }
    }
}

impl RoomView {
    /// The chain that the room speaks from.
    pub open spec fn primary(self) -> int {
        self.chains[0] as int
    }

    /// This room with other cooldowns.
    pub open spec fn with_cooldowns(self, cooldowns: Cooldowns) -> RoomView {
        RoomView { cooldowns, ..self }
    }
}

impl Room {
    /// The room is bound to chain 0 and to no chain twice.
    pub open spec fn wf(&self) -> bool {
        chains_ok(self@.chains)
    }

    /// A room in which no trigger has fired yet, so that each may fire at
    /// once. The room is bound to the chains listed, each once and in that
    /// order, and to chain 0 in any case.
    pub fn new(nick: String, local: String, domain: String, chain_indices: Vec<usize>) -> (room:
        Room)
        ensures
            room.wf(),
            room@.nick == nick@,
            room@.local == local@,
            room@.domain == domain@,
            room@.chains == effective_chains(Some(chain_indices@)),
            room@.cooldowns == Cooldowns::untouched(),
    {
        let chains = normalize_chains(&Some(chain_indices));
        Room { nick, local, domain, chain_indices: chains, cooldowns: Cooldowns::new() }
    }

    /// A room bound to exactly the chains given, in which no trigger has
    /// fired yet.
    pub(crate) fn assemble(nick: String, local: String, domain: String, chains: Vec<usize>) -> (room:
        Room)
        requires
            chains_ok(chains@),
        ensures
            room.wf(),
            room@ == (RoomView {
                nick: nick@,
                local: local@,
                domain: domain@,
                chains: chains@,
                cooldowns: Cooldowns::untouched(),
            }),
    {
        Room { nick, local, domain, chain_indices: chains, cooldowns: Cooldowns::new() }
    }

    pub fn nick(&self) -> (nick: &str)
        ensures
            nick@ == self@.nick,
    {
        self.nick.as_str()
    }

    pub fn local(&self) -> (local: &str)
        ensures
            local@ == self@.local,
    {
        self.local.as_str()
    }

    pub fn domain(&self) -> (domain: &str)
        ensures
            domain@ == self@.domain,
    {
        self.domain.as_str()
    }

    pub fn chain_indices(&self) -> (chains: &Vec<usize>)
        ensures
            chains@ == self@.chains,
    {
        &self.chain_indices
    }

    pub fn cooldowns(&self) -> (cooldowns: Cooldowns)
        ensures
            cooldowns == self@.cooldowns,
    {
        self.cooldowns
    }

    /// The chain that the room speaks from: the first of its list.
    pub fn primary_chain(&self) -> (chain: usize)
        requires
            self.wf(),
        ensures
            chain == self@.primary(),
            self@.chains.len() > 0,
    {
        self.chain_indices[0]
    }

    /// Answers what was said to the bot, whatever the cooldowns are.
    /// `request` is what was said as it was typed, without the nick and the
    /// separators after it, and `folded` the text to look for commands in,
    /// which is the request in lower case. Whatever is no command goes to
    /// the chain as it was typed.
    pub fn directed_message(
        &self,
        request: &str,
        folded: &str,
        jokes: &Vec<String>,
        pool: &mut GeneratorPool,
        dice: &mut Dice,
    ) -> (reply: Option<String>)
        requires
            self.wf(),
            old(pool).wf(),
            self@.primary() < old(pool)@.len(),
        ensures
            final(pool).wf(),
            final(dice).follows(*old(dice)),
            final(dice).bounds_since(*old(dice)) == directed_bounds(folded@, texts(jokes@)),
            outcome_fits(
                directed_plan(folded@, texts(jokes@), final(dice).since(*old(dice))),
                self@.primary(),
                request@,
                *old(pool),
                *final(pool),
                text_of(reply),
            ),
    {
        let plan = plan_directed(folded, jokes, dice);
        let chain = self.primary_chain();
        perform(plan, request, pool, chain)
    }

    /// Answers, or not, a message that was not said to the bot. `body` is
    /// the message as it came and `folded` the text to look for patterns
    /// in, which is the message in lower case.
    pub fn non_directed_message(
        &mut self,
        body: &str,
        folded: &str,
        now: Moment,
        jokes: &Vec<String>,
        pool: &mut GeneratorPool,
        dice: &mut Dice,
    ) -> (reply: Option<String>)
        requires
            old(self).wf(),
            old(pool).wf(),
            old(self)@.primary() < old(pool)@.len(),
        ensures
            final(pool).wf(),
            final(dice).follows(*old(dice)),
            ({
                let decision = ambient_decision(
                    old(self)@.cooldowns,
                    folded@,
                    now,
                    texts(jokes@),
                    final(dice).since(*old(dice)),
                );
                &&& final(dice).bounds_since(*old(dice)) == decision.bounds
                &&& final(self)@ == old(self)@.with_cooldowns(decision.cooldowns)
                &&& outcome_fits(
                    decision.plan,
                    old(self)@.primary(),
                    body@,
                    *old(pool),
                    *final(pool),
                    text_of(reply),
                )
            }),
    {
        let plan = plan_ambient(&mut self.cooldowns, folded, now, jokes, dice);
        let chain = self.primary_chain();
        perform(plan, body, pool, chain)
    }

    /// Answers, or not, one message heard in the room at `now`.
    pub fn respond(
        &mut self,
        body: &str,
        now: Moment,
        jokes: &Vec<String>,
        pool: &mut GeneratorPool,
        dice: &mut Dice,
    ) -> (reply: Option<String>)
        requires
            old(self).wf(),
            old(pool).wf(),
            old(self)@.primary() < old(pool)@.len(),
        ensures
            final(pool).wf(),
            final(dice).follows(*old(dice)),
            ({
                let decision = response(
                    old(self)@.cooldowns,
                    old(self)@.nick,
                    body@,
                    now,
                    texts(jokes@),
                    final(dice).since(*old(dice)),
                );
                &&& final(dice).bounds_since(*old(dice)) == decision.bounds
                &&& final(self)@ == old(self)@.with_cooldowns(decision.cooldowns)
                &&& outcome_fits(
                    decision.plan,
                    old(self)@.primary(),
                    seed_of(old(self)@.nick, body@),
                    *old(pool),
                    *final(pool),
                    text_of(reply),
                )
            }),
    {
        match directed_request(body, self.nick.as_str()) {
            Some(request) => {
                let folded = to_lowercase(request);
                self.directed_message(request, folded.as_str(), jokes, pool, dice)
            },
            None => {
                let folded = to_lowercase(body);
                self.non_directed_message(body, folded.as_str(), now, jokes, pool, dice)
            },
        }
    }
}

} // verus!
