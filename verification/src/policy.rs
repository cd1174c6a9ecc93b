//! The decisions: whether a message is said to the bot, what a command
//! asks for, and whether an unprompted reply is due. Every decision is a
//! function of the message, the cooldowns, the clock and the rolls made.

use crate::clock::Moment;
use crate::dice::{lemma_no_rolls, lemma_rolls_chain, Dice};
use crate::reply::{Plan, PlanView, CORRECTION, REPOSITORY_URL};
use crate::text::{
    after_separators, chars_of, is_separator, is_separator_char, lowercase, same_text,
    skip_separators, to_lowercase, trim, trim_bounds,
};
use crate::trigger::{
    chance, choice_bounds, chosen, gate_open, pick, should_send, texts, Cooldowns,
    TriggerCategory,
};
use vstd::prelude::*;
use vstd::string::*;

verus! {

/// The plan to tell the joke that the rolls choose, if there is any joke to
/// tell.
pub open spec fn joke_plan(jokes: Seq<Seq<char>>, rolls: Seq<u64>) -> PlanView {
    match chosen(jokes, rolls) {
        Some(joke) => PlanView::Say(joke),
        None => PlanView::Silent,
    }
}

/// The plan for a message said to the bot. `request` is what was said, in
/// lower case, after the nick and the separators that follow it. The
/// commands are tried in this order; whatever is no command goes to the
/// chain.
pub open spec fn directed_plan(
    request: Seq<char>,
    jokes: Seq<Seq<char>>,
    rolls: Seq<u64>,
) -> PlanView {
    let command = trim(request);
    if command == "jabber"@ {
        PlanView::Say(CORRECTION@)
    } else if command == "dad"@ {
        joke_plan(jokes, rolls)
    } else if command == "repo"@ || command == "code"@ {
        PlanView::Say(REPOSITORY_URL@)
    } else if command == "words"@ {
        PlanView::CountWords
    } else {
        PlanView::Generate
    }
}

/// The bounds of the rolls that planning the answer to `request` takes:
/// one roll to choose a joke where a joke is asked for, and none otherwise.
pub open spec fn directed_bounds(request: Seq<char>, jokes: Seq<Seq<char>>) -> Seq<u64> {
    if trim(request) != "jabber"@ && trim(request) == "dad"@ {
        choice_bounds(jokes)
    } else {
        Seq::<u64>::empty()
    }
}

/// The plan to tell one of `jokes`.
pub fn plan_joke(jokes: &Vec<String>, dice: &mut Dice) -> (plan: Plan)
    ensures
        final(dice).follows(*old(dice)),
        final(dice).bounds_since(*old(dice)) == choice_bounds(texts(jokes@)),
        plan@ == joke_plan(texts(jokes@), final(dice).since(*old(dice))),
{
    match pick(jokes, dice) {
        Some(joke) => Plan::Say(joke),
        None => Plan::Silent,
    }
}

/// Plans the answer to what was said to the bot, given in lower case.
pub fn plan_directed(request: &str, jokes: &Vec<String>, dice: &mut Dice) -> (plan: Plan)
    ensures
        final(dice).follows(*old(dice)),
        final(dice).bounds_since(*old(dice)) == directed_bounds(request@, texts(jokes@)),
        plan@ == directed_plan(request@, texts(jokes@), final(dice).since(*old(dice))),
{
    let chars = chars_of(request);
    let bounds = trim_bounds(&chars, 0);
    assert(chars@.skip(0) == chars@);
    let command = request.substring_char(bounds.0, bounds.1);
    if same_text(command, "jabber") {
        proof {
            lemma_no_rolls(*old(dice));
        }
        Plan::Say(CORRECTION.to_owned())
    } else if same_text(command, "dad") {
        plan_joke(jokes, dice)
    } else if same_text(command, "repo") || same_text(command, "code") {
        proof {
            lemma_no_rolls(*old(dice));
        }
        Plan::Say(REPOSITORY_URL.to_owned())
    } else if same_text(command, "words") {
        proof {
            lemma_no_rolls(*old(dice));
        }
        Plan::CountWords
    } else {
        proof {
            lemma_no_rolls(*old(dice));
        }
        Plan::Generate
    }
}

/// The beginning of a message addresses the bot: in lower case it is the
/// nick in lower case, and the message ends there or goes on with a
/// separator. `next` is the character that follows, if any.
pub open spec fn addresses(prefix: Seq<char>, nick: Seq<char>, next: Option<char>) -> bool {
    prefix == nick && (next is None || is_separator(next->0))
}

/// Whether the beginning of a message addresses the bot. `prefix` and
/// `nick` are the beginning and the nick in lower case, and `next` the
/// character that follows the beginning, if any.
pub fn is_address(prefix: &str, nick: &str, next: Option<char>) -> (addressed: bool)
    ensures
        addressed == addresses(prefix@, nick@, next),
{
    same_text(prefix, nick) && match next {
        None => true,
        Some(c) => is_separator_char(c),
    }
}

/// The character of `body` at `place`, if there is one.
pub open spec fn char_at(body: Seq<char>, place: int) -> Option<char> {
    if 0 <= place < body.len() {
        Some(body[place])
    } else {
        None
    }
}

/// The first `length` characters of `body` address the bot.
pub open spec fn addressed_at(body: Seq<char>, nick: Seq<char>, length: int) -> bool {
    &&& 0 <= length <= body.len()
    &&& addresses(lowercase(body.take(length)), lowercase(nick), char_at(body, length))
}

/// The length of the shortest beginning of `body`, of `from` characters or
/// more, that addresses the bot.
pub open spec fn first_address(body: Seq<char>, nick: Seq<char>, from: int) -> Option<int>
    decreases body.len() - from,
{
    if from < 0 || from > body.len() {
        None
    } else if addressed_at(body, nick, from) {
        Some(from)
    } else if from == body.len() {
        None
    } else {
        first_address(body, nick, from + 1)
    }
}

/// What is said to the bot in `body`: where the message begins with the
/// nick, whatever the case of either, and ends there or goes on with a
/// separator, what follows the nick and the separators after it, as it was
/// typed; `None` where the message is not said to the bot.
pub open spec fn request_in(body: Seq<char>, nick: Seq<char>) -> Option<Seq<char>> {
    match first_address(body, nick, 0) {
        Some(length) => Some(skip_separators(body.skip(length))),
        None => None,
    }
}

/// The text of a string slice that may be missing.
pub open spec fn slice_text(s: Option<&str>) -> Option<Seq<char>> {
    match s {
        Some(s) => Some(s@),
        None => None,
    }
}

/// Finds what is said to the bot in a message.
pub fn directed_request<'a>(body: &'a str, nick: &str) -> (request: Option<&'a str>)
    ensures
        slice_text(request) == request_in(body@, nick@),
{
    let text = chars_of(body);
    let name = to_lowercase(nick);
    let mut length: usize = 0;
    loop
        invariant
            text@ == body@,
            name@ == lowercase(nick@),
            length <= text.len(),
            first_address(body@, nick@, 0) == first_address(body@, nick@, length as int),
        decreases text.len() - length,
    {
        let next = if length < text.len() {
            Some(text[length])
        } else {
            None
        };
        let boundary = match next {
            None => true,
            Some(c) => is_separator_char(c),
        };
        if boundary {
            let prefix = body.substring_char(0, length);
            assert(body@.subrange(0, length as int) == body@.take(length as int));
            let folded = to_lowercase(prefix);
            if is_address(folded.as_str(), name.as_str(), next) {
                let from = after_separators(&text, length);
                let request = body.substring_char(from, text.len());
                assert(text@.subrange(from as int, text.len() as int) == text@.skip(from as int));
                return Some(request);
            }
        }
        if length == text.len() {
            return None;
        }
        length += 1;
    }
}

/// Whether `category` may fire on `body` at `now`, as far as its cooldown
/// and its pattern go.
pub open spec fn category_open(
    cooldowns: Cooldowns,
    category: TriggerCategory,
    now: Moment,
    body: Seq<char>,
) -> bool {
    gate_open(
        cooldowns.last_fired(category),
        now,
        body,
        category.pattern(),
        category.min_interval(),
    )
}

/// The bounds of the roll that a category takes: one roll of a hundred
/// where it is open, none where it is shut.
pub open spec fn category_bounds(
    cooldowns: Cooldowns,
    category: TriggerCategory,
    now: Moment,
    body: Seq<char>,
) -> Seq<u64> {
    if category_open(cooldowns, category, now, body) {
        seq![100u64]
    } else {
        Seq::<u64>::empty()
    }
}

/// What the engine makes of one message: the plan for the reply, the
/// cooldowns afterwards, the category that fired, and the bound of each
/// roll that it took, in their order.
pub struct Decision {
    pub plan: PlanView,
    pub cooldowns: Cooldowns,
    pub fired: Option<TriggerCategory>,
    pub bounds: Seq<u64>,
}

/// The decision on a message that is not said to the bot, `body` being the
/// message in lower case. The categories are tried in their order. A
/// category whose cooldown has run out and whose pattern stands in `body`
/// takes one roll of a hundred, and fires where the roll is below its
/// chance; the first to fire starts its cooldown anew and ends the trial.
/// Ambient chatter then takes one more roll of a hundred, and with even
/// odds tells a joke or has the chain make something up. A joke takes one
/// roll below the number of jokes.
pub open spec fn ambient_decision(
    cooldowns: Cooldowns,
    body: Seq<char>,
    now: Moment,
    jokes: Seq<Seq<char>>,
    rolls: Seq<u64>,
) -> Decision {
    let first = TriggerCategory::ProtocolIdentity;
    let second = TriggerCategory::LightHumor;
    let third = TriggerCategory::AmbientChatter;
    let b1 = category_bounds(cooldowns, first, now, body);
    let b2 = b1 + category_bounds(cooldowns, second, now, body);
    let b3 = b2 + category_bounds(cooldowns, third, now, body);
    if category_open(cooldowns, first, now, body) && rolls[0] < first.fire_chance() {
        Decision {
            plan: PlanView::Say(CORRECTION@),
            cooldowns: cooldowns.fired(first, now),
            fired: Some(first),
            bounds: b1,
        }
    } else if category_open(cooldowns, second, now, body) && rolls[b1.len() as int]
        < second.fire_chance() {
        Decision {
            plan: joke_plan(jokes, rolls.skip(b2.len() as int)),
            cooldowns: cooldowns.fired(second, now),
            fired: Some(second),
            bounds: b2 + choice_bounds(jokes),
        }
    } else if category_open(cooldowns, third, now, body) && rolls[b2.len() as int]
        < third.fire_chance() {
        if rolls[b3.len() as int] < 50 {
            Decision {
                plan: joke_plan(jokes, rolls.skip(b3.len() as int + 1)),
                cooldowns: cooldowns.fired(third, now),
                fired: Some(third),
                bounds: b3 + seq![100u64] + choice_bounds(jokes),
            }
        } else {
            Decision {
                plan: PlanView::Generate,
                cooldowns: cooldowns.fired(third, now),
                fired: Some(third),
                bounds: b3 + seq![100u64],
            }
        }
    } else {
        Decision { plan: PlanView::Silent, cooldowns, fired: None, bounds: b3 }
    }
}

/// The decision on a message as it came. What is said to the bot is
/// answered whatever the cooldowns are, and leaves them as they were;
/// everything else goes by the triggers. Commands and patterns are looked
/// for in the lower case of what was typed.
pub open spec fn response(
    cooldowns: Cooldowns,
    nick: Seq<char>,
    body: Seq<char>,
    now: Moment,
    jokes: Seq<Seq<char>>,
    rolls: Seq<u64>,
) -> Decision {
    match request_in(body, nick) {
        Some(request) => Decision {
            plan: directed_plan(lowercase(request), jokes, rolls),
            cooldowns,
            fired: None,
            bounds: directed_bounds(lowercase(request), jokes),
        },
        None => ambient_decision(cooldowns, lowercase(body), now, jokes, rolls),
    }
}

/// What the chain is asked about where the reply to a message is to be
/// generated: what was said to the bot, or else the whole message, either
/// as it was typed.
pub open spec fn seed_of(nick: Seq<char>, body: Seq<char>) -> Seq<char> {
    match request_in(body, nick) {
        Some(request) => request,
        None => body,
    }
}

/// Tries one category on a message.
fn category_fires(
    cooldowns: &mut Cooldowns,
    category: TriggerCategory,
    folded: &str,
    now: Moment,
    dice: &mut Dice,
) -> (fired: bool)
    ensures
        final(dice).follows(*old(dice)),
        final(dice).bounds_since(*old(dice)) == category_bounds(
            *old(cooldowns),
            category,
            now,
            folded@,
        ),
        fired == (category_open(*old(cooldowns), category, now, folded@) && final(dice).since(
            *old(dice),
        )[0] < category.fire_chance()),
        *final(cooldowns) == if fired {
            old(cooldowns).fired(category, now)
        } else {
            *old(cooldowns)
        },
{
    let pattern = category.match_substring();
    let seconds = category.min_interval_seconds();
    let percent = category.fire_percent();
    match category {
        TriggerCategory::ProtocolIdentity => should_send(
            folded,
            &mut cooldowns.protocol_identity,
            now,
            pattern,
            seconds,
            percent,
            dice,
        ),
        TriggerCategory::LightHumor => should_send(
            folded,
            &mut cooldowns.light_humor,
            now,
            pattern,
            seconds,
            percent,
            dice,
        ),
        TriggerCategory::AmbientChatter => should_send(
            folded,
            &mut cooldowns.ambient_chatter,
            now,
            pattern,
            seconds,
            percent,
            dice,
        ),
    }
}

/// Decides on a message that is not said to the bot: plans the reply and
/// moves the cooldowns. `folded` is the message in lower case.
pub fn plan_ambient(
    cooldowns: &mut Cooldowns,
    folded: &str,
    now: Moment,
    jokes: &Vec<String>,
    dice: &mut Dice,
) -> (plan: Plan)
    ensures
        final(dice).follows(*old(dice)),
        ({
            let decision = ambient_decision(
                *old(cooldowns),
                folded@,
                now,
                texts(jokes@),
                final(dice).since(*old(dice)),
            );
            &&& final(dice).bounds_since(*old(dice)) == decision.bounds
            &&& plan@ == decision.plan
            &&& *final(cooldowns) == decision.cooldowns
        }),
{
    let ghost start = *dice;
    if category_fires(cooldowns, TriggerCategory::ProtocolIdentity, folded, now, dice) {
        return Plan::Say(CORRECTION.to_owned());
    }
    let ghost after_first = *dice;
    if category_fires(cooldowns, TriggerCategory::LightHumor, folded, now, dice) {
        let ghost after_second = *dice;
        let plan = plan_joke(jokes, dice);
        proof {
            lemma_rolls_chain(start, after_first, after_second);
            lemma_rolls_chain(start, after_second, *dice);
            assert(dice.since(start).skip(after_second.since(start).len() as int)
                == dice.since(after_second));
        }
        return plan;
    }
    let ghost after_second = *dice;
    proof {
        lemma_rolls_chain(start, after_first, after_second);
    }
    if category_fires(cooldowns, TriggerCategory::AmbientChatter, folded, now, dice) {
        let ghost after_third = *dice;
        let joke = chance(50, dice);
        let ghost after_coin = *dice;
        proof {
            lemma_rolls_chain(start, after_second, after_third);
            lemma_rolls_chain(start, after_third, after_coin);
        }
        if joke {
            let plan = plan_joke(jokes, dice);
            proof {
                lemma_rolls_chain(start, after_coin, *dice);
                assert(dice.since(start).skip(after_coin.since(start).len() as int)
                    == dice.since(after_coin));
            }
            return plan;
        } else {
            return Plan::Generate;
        }
    }
    proof {
        lemma_rolls_chain(start, after_second, *dice);
    }
    Plan::Silent
}

} // verus!
