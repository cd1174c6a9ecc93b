//! What the bot can say: the fixed texts, the plan for one reply, and the
//! step from a plan to the text that is sent.

use crate::pool::{vocabulary_size, Ask, GeneratorPool};
use crate::text::{decimal, decimal_text};
use crate::trigger::text_of;
use vstd::prelude::*;
use vstd::string::*;

verus! {

/// The correction that is due when someone calls the protocol by the name
/// of a product.
pub const CORRECTION: &'static str =
    "I'd just like to interject for a moment. What you're referring to as Jabber, is in fact, XMPP, or as I've recently taken to calling it, XMPP not Jabber. Jabber is not an internet protocol unto itself, but rather another proprietary product owned by Cisco. XMPP instead is a fully functioning free protocol made useful by standardization and extensibility.\n";

/// Where the source of the bot is kept.
pub const REPOSITORY_URL: &'static str = "https://github.com/moparisthebest/ash";

/// What the engine has decided to say in answer to one message.
#[derive(Clone, Debug, PartialEq, Eq)]
pub enum Plan {
    /// Nothing.
    Silent,
    /// This text.
    Say(String),
    /// How many words the room's chain knows.
    CountWords,
    /// Whatever the room's chain makes up.
    Generate,
}

/// A plan, with its text as a sequence of characters.
pub enum PlanView {
    Silent,
    Say(Seq<char>),
    CountWords,
    Generate,
}

impl View for Plan {
    type V = PlanView;

    open spec fn view(&self) -> PlanView {
        match *self {
            Plan::Silent => PlanView::Silent,
            Plan::Say(text) => PlanView::Say(text@),
            Plan::CountWords => PlanView::CountWords,
            Plan::Generate => PlanView::Generate,
        }
    }
}

/// The answer to "how much do you know" from a chain that knows `count`
/// words.
pub open spec fn words_reply(count: nat) -> Seq<char> {
    "I know "@ + decimal(count) + " words!"@
}

/// `reply` is what carrying out `plan` may give, on a chain that has
/// learned from `corpus`. Only of a generated reply the text is open: it is
/// the chain's to make up. A chain that has learned from anything makes up
/// something, and one that has learned nothing makes up nothing and knows
/// no words.
pub open spec fn reply_fits(
    plan: PlanView,
    corpus: Seq<Seq<char>>,
    reply: Option<Seq<char>>,
) -> bool {
    match plan {
        PlanView::Silent => reply is None,
        PlanView::Say(text) => reply == Some(text),
        PlanView::CountWords => reply == Some(words_reply(vocabulary_size(corpus))) && (
        corpus.len() == 0 ==> reply == Some(words_reply(0))),
        PlanView::Generate => reply is Some <==> corpus.len() > 0,
    }
}

/// `reply` and the pool `after` are what carrying out `plan` on chain
/// `chain` of the pool `before` may give: no chain has learned anything,
/// the reply fits the plan, and the chain was asked about `seed` where, and
/// only where, the plan was to generate.
pub open spec fn outcome_fits(
    plan: PlanView,
    chain: int,
    seed: Seq<char>,
    before: GeneratorPool,
    after: GeneratorPool,
    reply: Option<Seq<char>>,
) -> bool {
    &&& after@ == before@
    &&& reply_fits(plan, before@[chain], reply)
    &&& after.asked() == if plan is Generate {
        before.asked().push(Ask { chain, seed })
    } else {
        before.asked()
    }
}

/// The text of the answer to "how much do you know".
pub fn words_reply_text(count: usize) -> (reply: String)
    ensures
        reply@ == words_reply(count as nat),
{
    let mut reply = String::from_str("I know ");
    let digits = decimal_text(count);
    reply.append(digits.as_str());
    reply.append(" words!");
    reply
}

/// Carries out a plan on chain `chain` of the pool: turns it into the text
/// to send, if any. `seed` is what the chain is asked about where the plan
/// is to generate.
pub fn perform(plan: Plan, seed: &str, pool: &mut GeneratorPool, chain: usize) -> (reply: Option<
    String,
>)
    requires
        old(pool).wf(),
        chain < old(pool)@.len(),
    ensures
        final(pool).wf(),
        outcome_fits(plan@, chain as int, seed@, *old(pool), *final(pool), text_of(reply)),
{
    match plan {
        Plan::Silent => None,
        Plan::Say(text) => Some(text),
        Plan::CountWords => Some(words_reply_text(pool.word_count(chain))),
        Plan::Generate => pool.generate(chain, seed),
    }
}

} // verus!
